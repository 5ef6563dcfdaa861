//! Digests, fingerprints, snapshots and texts, with their exact values.
use aionui_db::error::DbError;
use aionui_db::hash::{leading_number, push_framed, sha256_hex};
use aionui_db::like::contains_like;
use aionui_db::memory::digest::{
    append_queue_digest, concat_queue_digest, input_hash, parse_queue_digest, queue_digest,
    queue_item_digest, queue_power, remove_prefix_digest,
};
use aionui_db::memory::evidence::{
    canonical_turn_snapshot, derive_memory_fingerprint, memory_entry_content_hash,
    memory_evidence_content, memory_summary_conversation_id, memory_summary_selection_id,
    MemoryEvidenceMessageKind,
};
use aionui_db::memory::rows::{MessageRow, TurnMessageRow};
use aionui_db::memory::store::conversation_is_excluded;
use aionui_db::write::{is_bad_value, is_duplicate, is_missing_reference, is_taken};
use aionui_db::text::{
    before, blank, decimal_of, hex_of_bytes, hex_of_number, holds, parse_hex, trimmed_lower,
};

#[test]
fn sha256_of_known_bytes() {
    assert_eq!(
        sha256_hex(&b"abc".to_vec()),
        "ba7816bf8f01cfea414140de5dae2223b00361a396177a9cb410ff61f20015ad",
    );
}

#[test]
fn a_frame_is_a_length_and_the_bytes() {
    let mut bytes = vec![7];
    push_framed(&mut bytes, b"ab");
    assert_eq!(bytes, [7, 0, 0, 0, 0, 0, 0, 0, 2, b'a', b'b']);
}

#[test]
fn the_leading_number_is_big_endian() {
    let mut bytes = vec![0; 32];
    bytes[14] = 1;
    bytes[15] = 2;
    bytes[16] = 9;
    assert_eq!(leading_number(&bytes), 258);
}

#[test]
fn content_hashes_tell_no_content_from_some() {
    assert_eq!(
        memory_entry_content_hash(Some("private memory content")),
        "ae8a9296dd35892d1369be4873ae548d1a40006278b3bf0a9de764761f9443c2",
    );
    assert_eq!(
        memory_entry_content_hash(None),
        "b5f3d38a096dae74cd287f6787ebbe9e08a30e798f12c262da8981f1dba080a3",
    );
}

#[test]
fn fingerprints_cover_owner_scope_kind_and_key() {
    assert_eq!(
        derive_memory_fingerprint("user-1", Some("project-1"), None, "decision", "stable key"),
        "b5b1535b616c8e621130c1a898e968af785d6bbbf7a5b42d7e22b166fce2f3b7",
    );
    assert_ne!(
        derive_memory_fingerprint("user-1", None, Some("project-1"), "decision", "stable key"),
        derive_memory_fingerprint("user-1", Some("project-1"), None, "decision", "stable key"),
    );
}

#[test]
fn queue_digests_have_their_values() {
    let item = queue_item_digest("turn-1", "hash-1");
    assert_eq!(queue_digest(item), "fb8c93ce9890a16ebd6cc730094faa7b");
    let two = append_queue_digest(append_queue_digest(0, "turn-1", "hash-1"), "turn-2", "hash-2");
    assert_eq!(queue_digest(two), "30cadee8e87078da38c19e77119117a2");
    assert_eq!(queue_digest(queue_power(5).unwrap()), "9a00310ff2ae29af0caee32a7d4f6a63");
    assert_eq!(
        input_hash("memory-operation-v1", 1, 2, Some("turn-0"), 2, two),
        "e3dcc91449f02c313726483eaa3dbd4bb04a77f80e5c1ad1d1632f38a76ae58d",
    );
    assert_eq!(
        queue_power(-1),
        Err(DbError::Conflict("Invalid Memory queue length".into())),
    );
    assert_eq!(
        parse_queue_digest("not hex"),
        Err(DbError::Conflict("Invalid Memory queue digest".into())),
    );
}

#[test]
fn joining_and_splitting_queues_undo_each_other() {
    let left = append_queue_digest(0, "turn-1", "hash-1");
    let right = append_queue_digest(append_queue_digest(0, "turn-2", "hash-2"), "turn-3", "hash-3");
    let whole = concat_queue_digest(left, right, 2).unwrap();
    let one_by_one = append_queue_digest(
        append_queue_digest(left, "turn-2", "hash-2"),
        "turn-3",
        "hash-3",
    );
    assert_eq!(whole, one_by_one);
    assert_eq!(remove_prefix_digest(whole, left, 2).unwrap(), right);
    assert_eq!(parse_queue_digest(&queue_digest(whole)), Ok(whole));
}

fn message(id: &str, kind: &str, content: &str, position: &str) -> MessageRow {
    MessageRow {
        id: id.into(),
        conversation_id: "conv".into(),
        turn_id: Some("turn".into()),
        msg_id: None,
        message_type: kind.into(),
        content: content.into(),
        position: Some(position.into()),
        status: Some("finish".into()),
        hidden: false,
        created_at: 10,
    }
}

#[test]
fn evidence_is_the_text_of_a_finished_message() {
    let text = message("m", "text", "{\"content\":\" hi \",\"raw\":1}", "right");
    assert_eq!(memory_evidence_content(&text).as_deref(), Some(" hi "));
    let summary = message("m", "tool_result_summary", "{\"summary\":\"short\"}", "left");
    assert_eq!(memory_evidence_content(&summary).as_deref(), Some("short"));
    for refused in [
        message("m", "tool_call", "{\"content\":\"x\"}", "left"),
        message("m", "text", "{\"summary\":\"x\"}", "left"),
        message("m", "text", "{\"content\":7}", "left"),
        message("m", "text", "{\"content\":\" \\u2003\"}", "left"),
        message("m", "text", "[\"content\"]", "left"),
        message("m", "text", "not json", "left"),
        message("m", "text", "{\"content\":\"x\"}", "center"),
        MessageRow { hidden: true, ..message("m", "text", "{\"content\":\"x\"}", "left") },
        MessageRow { status: None, ..message("m", "text", "{\"content\":\"x\"}", "left") },
        MessageRow { position: None, ..message("m", "text", "{\"content\":\"x\"}", "left") },
    ] {
        assert_eq!(memory_evidence_content(&refused), None);
    }
    assert_eq!(MemoryEvidenceMessageKind::ToolResultSummary.content_field(), "summary");
    assert_eq!(MemoryEvidenceMessageKind::Artifact.content_field(), "content");
}

fn as_read(message: MessageRow) -> TurnMessageRow {
    let accepted_content = memory_evidence_content(&message);
    TurnMessageRow { message, accepted_content }
}

#[test]
fn a_turn_snapshot_has_its_hash_and_hands_on_the_text_alone() {
    let second = MessageRow {
        msg_id: Some("x".into()),
        created_at: 11,
        ..message("m2", "tool_result_summary", "{\"summary\":\"done \u{e9}\",\"raw\":[1]}", "left")
    };
    let ignored = MessageRow { created_at: 3, ..message("m0", "tool_call", "{}", "left") };
    let rows = vec![
        as_read(second),
        as_read(ignored),
        as_read(message("m1", "text", "{\"content\":\"hello\",\"more\":true}", "right")),
    ];
    let snapshot = canonical_turn_snapshot(&rows, "conv", "turn").unwrap();
    assert_eq!(
        snapshot.hash,
        "3147a0e9317782e131d85b1ec334559e6a42a84ea0f7301fd05548bf0f18902b",
    );
    assert_eq!(snapshot.message_count, 2);
    assert_eq!(snapshot.content_bytes, 12);
    assert_eq!(snapshot.earliest_all_at, Some(3));
    assert!(snapshot.has_user_work && snapshot.has_assistant_outcome);
    assert!(!snapshot.absolute_limit_exceeded);
    let contents: Vec<&str> = snapshot.messages.iter().map(|row| row.content.as_str()).collect();
    assert_eq!(contents, ["{\"content\":\"hello\"}", "{\"summary\":\"done \u{e9}\"}"]);
}

#[test]
fn a_turn_over_the_limit_hands_nothing_on() {
    let long = "x".repeat(64 * 1024 + 1);
    let rows =
        vec![as_read(message("m1", "text", &format!("{{\"content\":\"{long}\"}}"), "left"))];
    let snapshot = canonical_turn_snapshot(&rows, "conv", "turn").unwrap();
    assert!(snapshot.absolute_limit_exceeded);
    assert!(snapshot.has_user_work && snapshot.has_assistant_outcome);
    assert!(snapshot.messages.is_empty());
}

#[test]
fn a_summary_selection_names_its_conversation() {
    assert_eq!(memory_summary_selection_id("conv"), "memory-summary:conv");
    assert_eq!(memory_summary_conversation_id("memory-summary:conv"), Some("conv"));
    assert_eq!(memory_summary_conversation_id("memory-summary:"), None);
    assert_eq!(memory_summary_conversation_id("entry-1"), None);
}

#[test]
fn internal_conversations_are_left_out() {
    assert!(!conversation_is_excluded("gemini", Some("aionui"), "{}"));
    assert!(conversation_is_excluded(" Health_Check ", None, "{}"));
    assert!(conversation_is_excluded("gemini", Some("INTERNAL"), "{}"));
    assert!(conversation_is_excluded("gemini", None, "{\"ephemeral\":true}"));
    assert!(!conversation_is_excluded("gemini", None, "{\"ephemeral\":\"true\"}"));
    assert!(conversation_is_excluded("gemini", None, "[]"));
    assert!(conversation_is_excluded("gemini", None, "broken"));
}

#[test]
fn patterns_are_found_without_regard_to_case() {
    assert!(contains_like("Ship Memory today", "memory"));
    assert!(contains_like("100% done", "0% D"));
    assert!(contains_like("a-b", "a_b"));
    assert!(!contains_like("ab", "a_b"));
    assert!(contains_like("start and end", "start%end"));
    assert!(!contains_like("end and start", "start%end"));
    assert!(contains_like("anything", ""));
}

#[test]
fn texts_are_compared_searched_and_written() {
    assert!(before("a", "b") && !before("b", "a") && !before("a", "a"));
    assert!(before("Z", "a") && before("a", "ab"));
    assert!(holds("UNIQUE constraint failed: x", "constraint"));
    assert!(holds("abc", "") && !holds("ab", "abc") && holds("aab", "ab") && !holds("abd", "abc"));
    assert!(blank(" \t\u{2003}") && !blank(" x "));
    assert_eq!(trimmed_lower("  AbC\u{a0}").into_iter().collect::<String>(), "abc");
    assert_eq!(hex_of_bytes(&vec![0, 171, 255]), "00abff");
    assert_eq!(hex_of_number(255, 4), "00ff");
    assert_eq!(parse_hex("00fF"), Some(255));
    assert_eq!(parse_hex("+1f"), Some(31));
    assert_eq!(parse_hex(""), None);
    assert_eq!(parse_hex("xyz"), None);
    assert_eq!(decimal_of(1024), "1024");
    assert_eq!(decimal_of(0), "0");
}

#[test]
fn engine_codes_are_told_apart() {
    let code = |text: &str| Some(text.to_owned());
    assert!(is_duplicate(&code("2067")) && is_duplicate(&code("1555")));
    assert!(is_taken(&code("2067")) && !is_taken(&code("1555")));
    assert!(is_missing_reference(&code("787")) && !is_missing_reference(&code("2067")));
    assert!(is_bad_value(&code("275")) && !is_bad_value(&None));
}

fn is_digest(text: &str) -> bool {
    text.len() == 64 && text.chars().all(|c| c.is_ascii_digit() || ('a'..='f').contains(&c))
}

#[test]
fn fingerprints_are_apart_wherever_a_part_is() {
    let all = [
        derive_memory_fingerprint("u", None, None, "fact", "key"),
        derive_memory_fingerprint("v", None, None, "fact", "key"),
        derive_memory_fingerprint("u", Some(""), None, "fact", "key"),
        derive_memory_fingerprint("u", None, Some(""), "fact", "key"),
        derive_memory_fingerprint("u", None, None, "fact\",\"key", ""),
        derive_memory_fingerprint("u", None, None, "fact", "key\\"),
        derive_memory_fingerprint("u", Some("null"), None, "fact", "key"),
    ];
    for (i, fingerprint) in all.iter().enumerate() {
        assert!(is_digest(fingerprint));
        assert!(!all[..i].contains(fingerprint));
    }
    assert_eq!(all[0], derive_memory_fingerprint("u", None, None, "fact", "key"));
}

#[test]
fn input_hashes_are_apart_wherever_a_part_is() {
    let all = [
        input_hash("v1", 1, 2, None, 3, 4),
        input_hash("v2", 1, 2, None, 3, 4),
        input_hash("v1", 2, 1, None, 3, 4),
        input_hash("v1", 1, 3, None, 3, 4),
        input_hash("v1", 1, 2, Some(""), 3, 4),
        input_hash("v1", 1, 2, Some("null"), 3, 4),
        input_hash("v1", 1, 2, None, 4, 4),
        input_hash("v1", 1, 2, None, 3, u128::MAX),
    ];
    for (i, hash) in all.iter().enumerate() {
        assert!(is_digest(hash));
        assert!(!all[..i].contains(hash));
    }
    assert_eq!(all[0], input_hash("v1", 1, 2, None, 3, 4));
}

#[test]
fn a_turn_snapshot_takes_the_text_that_the_engine_read() {
    let twice = message("m1", "text", "{\"content\":\"first\",\"content\":\"last\"}", "right");
    let row = TurnMessageRow { message: twice, accepted_content: Some("first".into()) };
    let snapshot = canonical_turn_snapshot(&vec![row], "conv", "turn").unwrap();
    assert_eq!(snapshot.content_bytes, 5);
    assert_eq!(snapshot.messages[0].content, "{\"content\":\"first\"}");
    let unread = TurnMessageRow {
        message: message("m2", "text", "{\"content\":\"text\"}", "right"),
        accepted_content: None,
    };
    let snapshot = canonical_turn_snapshot(&vec![unread], "conv", "turn").unwrap();
    assert_eq!((snapshot.message_count, snapshot.has_user_work), (0, false));
}

#[test]
fn content_hashes_are_apart_wherever_the_content_is() {
    let all = [
        memory_entry_content_hash(None),
        memory_entry_content_hash(Some("")),
        memory_entry_content_hash(Some("null")),
        memory_entry_content_hash(Some("\"")),
    ];
    for (i, hash) in all.iter().enumerate() {
        assert!(is_digest(hash));
        assert!(!all[..i].contains(hash));
    }
    assert_eq!(all[1], memory_entry_content_hash(Some("")));
}

#[test]
fn a_search_ends_at_a_nul() {
    assert!(contains_like("xa", "a\0b"));
    assert!(!contains_like("ab", "a\0b"));
    assert!(contains_like("seen\0hidden", "SEEN"));
    assert!(!contains_like("seen\0hidden", "hidden"));
    assert!(contains_like("seen\0hidden", "n\0x"));
    assert!(contains_like("", "\0"));
    assert!(contains_like("a\u{fffe}b", "A\u{fffd}B"));
    assert!(!contains_like("\u{c4}", "\u{e4}"));
}
