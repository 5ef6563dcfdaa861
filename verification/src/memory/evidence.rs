//! The evidence that memory is drawn from: which messages count, what text
//! they give, and the snapshot of a turn.
use crate::error::{conflict, DbError};
use crate::hash::{
    framed, is_digest_text, law_digest_text_tells_apart, push_framed, sha256_hex, sha256_hex_of,
    told_apart,
};
use crate::json::{
    decode_object, encode_array, json_array_bytes, json_field, json_members, json_object_text,
    json_opt, json_text, member, member_text, members_read, named, one_member_read, text_member,
    text_or_null, write_object, JsonField, JsonMember, JsonScalar,
};
use crate::memory::rows::{MessageRow, TurnMessageRow};
use crate::table::{
    is_ordered, law_ordered, law_selected, lemma_lookup, model, ordered, orders, page, select_where,
    selected, sort_rows, take_page, Record,
};
use crate::text::{
    before, blank, borrow_opt, is_blank, is_some_text, joined, lemma_text_order,
    lemma_text_transitive, opt_str, opt_text, same, text_before,
};
use vstd::prelude::*;
use vstd::string::StrSliceExecFns;
use vstd::utf8::encode_utf8;

verus! {

/// Maximum accepted messages in one bounded Memory evidence batch.
pub const MEMORY_EVIDENCE_MAX_MESSAGES: usize = 128;

/// Maximum accepted UTF-8 content bytes in one bounded Memory evidence batch.
pub const MEMORY_EVIDENCE_MAX_BYTES: usize = 64 * 1024;

/// What marks a selected conversation summary.
pub const MEMORY_SUMMARY_SELECTION_PREFIX: &'static str = "memory-summary:";

/// The selection id of a conversation's summary.
pub open spec fn summary_selection(conversation_id: Seq<char>) -> Seq<char> {
    MEMORY_SUMMARY_SELECTION_PREFIX@ + conversation_id
}

/// Names a conversation's summary among selected memories.
pub fn memory_summary_selection_id(conversation_id: &str) -> (id: String)
    ensures
        id@ == summary_selection(conversation_id@),
{
    let id = joined(MEMORY_SUMMARY_SELECTION_PREFIX, conversation_id, "");
    proof {
        reveal_strlit("");
        assert(id@ =~= summary_selection(conversation_id@));
    }
    id
}

/// The conversation whose summary a selection id names, if it names one.
pub fn memory_summary_conversation_id(selection_id: &str) -> (id: Option<&str>)
    ensures
        match id {
            Some(conversation_id) => conversation_id@.len() > 0 && selection_id@
                == summary_selection(conversation_id@),
            None => forall|conversation_id: Seq<char>|
                conversation_id.len() > 0 ==> selection_id@ != #[trigger] summary_selection(
                    conversation_id,
                ),
        },
{
    let prefix: &str = MEMORY_SUMMARY_SELECTION_PREFIX;
    let size: usize = prefix.unicode_len();
    let total: usize = selection_id.unicode_len();
    if total <= size {
        assert forall|conversation_id: Seq<char>|
            conversation_id.len() > 0 implies selection_id@ != #[trigger] summary_selection(
            conversation_id,
        ) by {
            assert(summary_selection(conversation_id).len() > size);
        }
        return None;
    }
    let head = selection_id.substring_char(0, size);
    if !same(head, prefix) {
        assert forall|conversation_id: Seq<char>|
            conversation_id.len() > 0 implies selection_id@ != #[trigger] summary_selection(
            conversation_id,
        ) by {
            assert(summary_selection(conversation_id).subrange(0, size as int) =~= prefix@);
        }
        return None;
    }
    let rest = selection_id.substring_char(size, total);
    assert(selection_id@ =~= head@ + rest@);
    Some(rest)
}

/// A selection id made for a conversation names that conversation, and no two
/// conversations share one.
pub proof fn law_summary_selection_names_its_conversation(left: Seq<char>, right: Seq<char>)
    ensures
        summary_selection(left) == summary_selection(right) ==> left == right,
{
    let size = MEMORY_SUMMARY_SELECTION_PREFIX@.len() as int;
    assert(summary_selection(left).skip(size) =~= left);
    assert(summary_selection(right).skip(size) =~= right);
}

/// Canonical message families that may contribute text to Memory evidence.
#[derive(Debug, Clone, Copy, PartialEq, Eq)]
pub enum MemoryEvidenceMessageKind {
    Text,
    Artifact,
    ToolResultSummary,
}

/// The family that a stored message type names.
pub open spec fn evidence_kind(message_type: Seq<char>) -> Option<MemoryEvidenceMessageKind> {
    if message_type == "text"@ {
        Some(MemoryEvidenceMessageKind::Text)
    } else if message_type == "artifact"@ {
        Some(MemoryEvidenceMessageKind::Artifact)
    } else if message_type == "tool_result_summary"@ {
        Some(MemoryEvidenceMessageKind::ToolResultSummary)
    } else {
        None
    }
}

/// The JSON field that holds a family's text.
pub open spec fn evidence_field(kind: MemoryEvidenceMessageKind) -> Seq<char> {
    match kind {
        MemoryEvidenceMessageKind::ToolResultSummary => "summary"@,
        _ => "content"@,
    }
}

impl MemoryEvidenceMessageKind {
    /// Classifies a persisted message type using the canonical Memory allowlist.
    pub fn from_db_type(message_type: &str) -> (kind: Option<Self>)
        ensures
            kind == evidence_kind(message_type@),
    {
        if same(message_type, "text") {
            Some(MemoryEvidenceMessageKind::Text)
        } else if same(message_type, "artifact") {
            Some(MemoryEvidenceMessageKind::Artifact)
        } else if same(message_type, "tool_result_summary") {
            Some(MemoryEvidenceMessageKind::ToolResultSummary)
        } else {
            None
        }
    }

    /// Returns the JSON string field that contains accepted evidence text.
    pub fn content_field(self) -> (field: &'static str)
        ensures
            field@ == evidence_field(self),
    {
        match self {
            MemoryEvidenceMessageKind::Text => "content",
            MemoryEvidenceMessageKind::Artifact => "content",
            MemoryEvidenceMessageKind::ToolResultSummary => "summary",
        }
    }
}

/// Whether a message is shown, finished and said by one of the two sides.
pub open spec fn presentable(message: MessageRow<Seq<char>>) -> bool {
    &&& !message.hidden
    &&& message.status == Some("finish"@)
    &&& message.position == Some("left"@) || message.position == Some("right"@)
}

/// The evidence text of a message whose JSON content has the given members.
pub open spec fn evidence_text(
    message: MessageRow<Seq<char>>,
    members: Option<Seq<JsonMember<Seq<char>>>>,
) -> Option<Seq<char>> {
    match (evidence_kind(message.message_type), members) {
        (Some(kind), Some(list)) => match member_text(list, evidence_field(kind)) {
            Some(text) => if presentable(message) && !is_blank(text) {
                Some(text)
            } else {
                None
            },
            None => None,
        },
        _ => None,
    }
}

fn is_presentable(message: &MessageRow) -> (yes: bool)
    ensures
        yes == presentable(message@),
{
    !message.hidden && is_some_text(&message.status, "finish") && (is_some_text(
        &message.position,
        "left",
    ) || is_some_text(&message.position, "right"))
}

/// The evidence text of a message whose JSON content was read: `members` are
/// the members of the object that it writes, if it writes one.
pub fn evidence_content_of(
    message: &MessageRow,
    members: &Option<Vec<JsonMember>>,
) -> (text: Option<
    String,
>)
    ensures
        opt_text(text) == evidence_text(message@, members_read(*members)),
{
    if !is_presentable(message) {
        return None;
    }
    match (MemoryEvidenceMessageKind::from_db_type(message.message_type.as_str()), members) {
        (Some(kind), Some(list)) => match text_member(list, kind.content_field()) {
            Some(text) => if blank(text.as_str()) {
                None
            } else {
                Some(text)
            },
            None => None,
        },
        _ => None,
    }
}

/// The evidence text of a message, or nothing.
pub open spec fn evidence_of(message: MessageRow<Seq<char>>) -> Option<Seq<char>> {
    evidence_text(message, json_members(message.content))
}

/// Extracts canonical evidence text when row metadata and JSON content are eligible.
pub fn memory_evidence_content(message: &MessageRow) -> (text: Option<String>)
    ensures
        opt_text(text) == evidence_of(message@),
{
    let members = decode_object(message.content.as_str());
    evidence_content_of(message, &members)
}

/// A message with its own evidence text beside it. A storage engine may read
/// another where a member's name comes twice in the content.
pub open spec fn with_evidence(message: MessageRow<Seq<char>>) -> TurnMessageRow<Seq<char>> {
    TurnMessageRow { message, accepted_content: evidence_of(message) }
}

/// A message counts as evidence of a turn exactly where it is of that turn and
/// has an evidence text.
pub proof fn law_evidence_text_counts(
    message: MessageRow<Seq<char>>,
    conversation_id: Seq<char>,
    turn_id: Seq<char>,
)
    ensures
        eligible(conversation_id, turn_id)(with_evidence(message)) <==> message.conversation_id
            == conversation_id && message.turn_id == Some(turn_id) && evidence_of(message) is Some,
{
}

/// The items that stand for an entry's content.
pub open spec fn content_items(content: Option<Seq<char>>) -> Seq<JsonScalar<Seq<char>>> {
    seq![JsonScalar::Text("memory-entry-content-v1"@), text_or_null(content)]
}

/// What an entry's content is hashed as, in JSON.
pub open spec fn hashed_content(content: Option<Seq<char>>) -> Seq<u8> {
    json_array_bytes(content_items(content))
}

/// The digest that stands for an entry's content.
pub open spec fn content_hash(content: Option<Seq<char>>) -> Seq<char> {
    sha256_hex_of(hashed_content(content))
}

/// Produces the content-free digest persisted in a job's reconciliation snapshot.
/// It is the digest of another content only where the two are the same, unless
/// the hash fails to tell them apart.
pub fn memory_entry_content_hash(content: Option<&str>) -> (hash: String)
    ensures
        hash@ == content_hash(opt_str(content)),
        is_digest_text(hash@),
        forall|other: Option<Seq<char>>|
            told_apart(hashed_content(opt_str(content)), hashed_content(other)) ==> (
            #[trigger] content_hash(other) == hash@ <==> other == opt_str(content)),
{
    let mut items: Vec<JsonScalar> = Vec::new();
    items.push(json_text("memory-entry-content-v1"));
    items.push(json_opt(content));
    let ghost own = opt_str(content);
    assert(model(items@) =~= content_items(own));
    let bytes = encode_array(items);
    let hash = sha256_hex(&bytes);
    proof {
        assert forall|other: Option<Seq<char>>|
            told_apart(bytes@, hashed_content(other)) && #[trigger] content_hash(other)
                == hash@ implies other == own by {
            law_digest_text_tells_apart(bytes@, hashed_content(other));
            assert(content_items(other)[1] == content_items(own)[1]);
        }
    }
    hash
}

/// What tells entries apart, in JSON: who owns it, where it holds, its kind and
/// its key.
pub open spec fn identity_bytes(
    user_id: Seq<char>,
    project_id: Option<Seq<char>>,
    workspace_key: Option<Seq<char>>,
    kind: Seq<char>,
    stable_key: Seq<char>,
) -> Seq<u8> {
    json_array_bytes(identity_items(user_id, project_id, workspace_key, kind, stable_key))
}

/// The items of an entry's identity.
pub open spec fn identity_items(
    user_id: Seq<char>,
    project_id: Option<Seq<char>>,
    workspace_key: Option<Seq<char>>,
    kind: Seq<char>,
    stable_key: Seq<char>,
) -> Seq<JsonScalar<Seq<char>>> {
    seq![
        JsonScalar::Text("memory-fingerprint-v1"@),
        JsonScalar::Text(user_id),
        text_or_null(project_id),
        text_or_null(workspace_key),
        JsonScalar::Text(kind),
        JsonScalar::Text(stable_key),
    ]
}

/// The identity of an entry: who owns it, where it holds, its kind and its key.
pub open spec fn fingerprint_of(
    user_id: Seq<char>,
    project_id: Option<Seq<char>>,
    workspace_key: Option<Seq<char>>,
    kind: Seq<char>,
    stable_key: Seq<char>,
) -> Seq<char> {
    sha256_hex_of(identity_bytes(user_id, project_id, workspace_key, kind, stable_key))
}

/// Identities of the same items are the same.
proof fn lemma_identity_items(
    a: (Seq<char>, Option<Seq<char>>, Option<Seq<char>>, Seq<char>, Seq<char>),
    b: (Seq<char>, Option<Seq<char>>, Option<Seq<char>>, Seq<char>, Seq<char>),
)
    requires
        identity_items(a.0, a.1, a.2, a.3, a.4) == identity_items(b.0, b.1, b.2, b.3, b.4),
    ensures
        a == b,
{
    let left = identity_items(a.0, a.1, a.2, a.3, a.4);
    let right = identity_items(b.0, b.1, b.2, b.3, b.4);
    assert(left[1] == right[1] && left[2] == right[2] && left[3] == right[3]);
    assert(left[4] == right[4] && left[5] == right[5]);
}

/// Derives the canonical identity fingerprint for an entry owner, scope, kind, and stable key.
/// It is the fingerprint of another identity only where the two agree in all
/// five, unless the hash fails to tell them apart.
pub fn derive_memory_fingerprint(
    user_id: &str,
    project_id: Option<&str>,
    workspace_key: Option<&str>,
    kind: &str,
    stable_key: &str,
) -> (fingerprint: String)
    ensures
        fingerprint@ == fingerprint_of(
            user_id@,
            opt_str(project_id),
            opt_str(workspace_key),
            kind@,
            stable_key@,
        ),
        is_digest_text(fingerprint@),
        forall|
            user: Seq<char>,
            project: Option<Seq<char>>,
            workspace: Option<Seq<char>>,
            other_kind: Seq<char>,
            key: Seq<char>,
        |
            told_apart(
                identity_bytes(
                    user_id@,
                    opt_str(project_id),
                    opt_str(workspace_key),
                    kind@,
                    stable_key@,
                ),
                identity_bytes(user, project, workspace, other_kind, key),
            ) ==> (#[trigger] fingerprint_of(user, project, workspace, other_kind, key)
                == fingerprint@ <==> user == user_id@ && project == opt_str(project_id)
                && workspace == opt_str(workspace_key) && other_kind == kind@ && key
                == stable_key@),
{
    let mut items: Vec<JsonScalar> = Vec::new();
    items.push(json_text("memory-fingerprint-v1"));
    items.push(json_text(user_id));
    items.push(json_opt(project_id));
    items.push(json_opt(workspace_key));
    items.push(json_text(kind));
    items.push(json_text(stable_key));
    let ghost own = (
        user_id@,
        opt_str(project_id),
        opt_str(workspace_key),
        kind@,
        stable_key@,
    );
    assert(model(items@) =~= identity_items(own.0, own.1, own.2, own.3, own.4));
    let bytes = encode_array(items);
    let fingerprint = sha256_hex(&bytes);
    proof {
        assert forall|
            user: Seq<char>,
            project: Option<Seq<char>>,
            workspace: Option<Seq<char>>,
            other_kind: Seq<char>,
            key: Seq<char>,
        |
            told_apart(bytes@, identity_bytes(user, project, workspace, other_kind, key))
                && #[trigger] fingerprint_of(user, project, workspace, other_kind, key)
                == fingerprint@ implies (user, project, workspace, other_kind, key) == own by {
            law_digest_text_tells_apart(
                bytes@,
                identity_bytes(user, project, workspace, other_kind, key),
            );
            lemma_identity_items(own, (user, project, workspace, other_kind, key));
        }
    }
    fingerprint
}

// ----------------------------------------------------------------------------
// The snapshot of a turn
// ----------------------------------------------------------------------------

/// The version tag of a turn snapshot.
pub const TURN_SNAPSHOT_VERSION: &'static str = "memory-eligible-turn-snapshot-v2";

/// The messages of a turn.
pub open spec fn of_turn(conversation_id: Seq<char>, turn_id: Seq<char>) -> spec_fn(
    TurnMessageRow<Seq<char>>,
) -> bool {
    |row: TurnMessageRow<Seq<char>>|
        row.message.conversation_id == conversation_id && row.message.turn_id == Some(turn_id)
}

/// The messages of a turn that count as evidence.
pub open spec fn eligible(conversation_id: Seq<char>, turn_id: Seq<char>) -> spec_fn(
    TurnMessageRow<Seq<char>>,
) -> bool {
    |row: TurnMessageRow<Seq<char>>|
        {
            &&& row.message.conversation_id == conversation_id
            &&& row.message.turn_id == Some(turn_id)
            &&& presentable(row.message)
            &&& evidence_kind(row.message.message_type) is Some
            &&& match row.accepted_content {
                Some(text) => !is_blank(text),
                None => false,
            }
        }
}

/// Messages in the order of their time, then of their ids.
pub open spec fn earlier_message() -> spec_fn(
    TurnMessageRow<Seq<char>>,
    TurnMessageRow<Seq<char>>,
) -> bool {
    |a: TurnMessageRow<Seq<char>>, b: TurnMessageRow<Seq<char>>|
        a.message.created_at < b.message.created_at || (a.message.created_at
            == b.message.created_at && text_before(a.message.id, b.message.id))
}

/// The evidence of a turn in order; one message more than the limit shows that
/// there are too many.
pub open spec fn turn_evidence(
    messages: Seq<TurnMessageRow<Seq<char>>>,
    conversation_id: Seq<char>,
    turn_id: Seq<char>,
) -> Seq<TurnMessageRow<Seq<char>>> {
    page(
        ordered(selected(messages, eligible(conversation_id, turn_id)), earlier_message()),
        0,
        (MEMORY_EVIDENCE_MAX_MESSAGES + 1) as nat,
    )
}

pub proof fn lemma_message_order()
    ensures
        orders(earlier_message()),
{
    let less = earlier_message();
    assert forall|a: TurnMessageRow<Seq<char>>, b: TurnMessageRow<Seq<char>>| #[trigger]
        less(a, b) implies !less(b, a) by {
        lemma_text_order(a.message.id, b.message.id);
    }
    assert forall|
        a: TurnMessageRow<Seq<char>>,
        b: TurnMessageRow<Seq<char>>,
        c: TurnMessageRow<Seq<char>>,
    | #[trigger] less(a, c) && !less(b, c) implies #[trigger] less(a, b) by {
        lemma_text_order(b.message.id, c.message.id);
        lemma_text_order(a.message.id, b.message.id);
        lemma_text_order(a.message.id, c.message.id);
        if text_before(a.message.id, c.message.id) && text_before(c.message.id, b.message.id) {
            lemma_text_transitive(a.message.id, c.message.id, b.message.id);
        }
    }
}

/// The evidence of a turn holds only stored messages that count, the earliest
/// first, and never more than one beyond the limit.
pub proof fn law_evidence_is_eligible(
    messages: Seq<TurnMessageRow<Seq<char>>>,
    conversation_id: Seq<char>,
    turn_id: Seq<char>,
)
    ensures
        ({
            let rows = turn_evidence(messages, conversation_id, turn_id);
            &&& forall|i: int|
                0 <= i < rows.len() ==> eligible(conversation_id, turn_id)(#[trigger] rows[i])
                    && messages.contains(rows[i])
            &&& is_ordered(rows, earlier_message())
            &&& rows.len() <= MEMORY_EVIDENCE_MAX_MESSAGES + 1
        }),
{
    let hits = selected(messages, eligible(conversation_id, turn_id));
    let all = ordered(hits, earlier_message());
    let rows = turn_evidence(messages, conversation_id, turn_id);
    lemma_message_order();
    law_selected(messages, eligible(conversation_id, turn_id));
    law_ordered(hits, earlier_message());
    assert forall|i: int| 0 <= i < rows.len() implies eligible(conversation_id, turn_id)(
        #[trigger] rows[i],
    ) && messages.contains(rows[i]) by {
        assert(rows[i] == all[i]);
        assert(all.contains(all[i]));
        assert(hits.contains(rows[i]));
    }
}

/// Whether each message stands beside its own evidence text.
pub open spec fn evidence_read(messages: Seq<TurnMessageRow<Seq<char>>>) -> bool {
    forall|row: TurnMessageRow<Seq<char>>| #[trigger]
        messages.contains(row) ==> row == with_evidence(row.message)
}

/// Where each message stands beside its own evidence text, the evidence of a turn
/// is the turn's messages that have such a text, with it: only those, and all of
/// them unless there are more than the limit.
pub proof fn law_evidence_is_of_the_turn(
    messages: Seq<TurnMessageRow<Seq<char>>>,
    conversation_id: Seq<char>,
    turn_id: Seq<char>,
)
    requires
        evidence_read(messages),
    ensures
        ({
            let rows = turn_evidence(messages, conversation_id, turn_id);
            &&& forall|i: int|
                0 <= i < rows.len() ==> of_turn(conversation_id, turn_id)(#[trigger] rows[i])
                    && evidence_of(rows[i].message) is Some && rows[i] == with_evidence(
                    rows[i].message,
                )
            &&& rows.len() <= MEMORY_EVIDENCE_MAX_MESSAGES ==> forall|
                row: TurnMessageRow<Seq<char>>,
            |
                messages.contains(row) && of_turn(conversation_id, turn_id)(row) && evidence_of(
                    row.message,
                ) is Some ==> #[trigger] rows.contains(row)
        }),
{
    let hit = eligible(conversation_id, turn_id);
    let hits = selected(messages, hit);
    let all = ordered(hits, earlier_message());
    let rows = turn_evidence(messages, conversation_id, turn_id);
    lemma_message_order();
    law_evidence_is_eligible(messages, conversation_id, turn_id);
    law_selected(messages, hit);
    law_ordered(hits, earlier_message());
    assert forall|i: int| 0 <= i < rows.len() implies of_turn(conversation_id, turn_id)(
        #[trigger] rows[i],
    ) && evidence_of(rows[i].message) is Some && rows[i] == with_evidence(rows[i].message) by {
        assert(hit(rows[i]) && messages.contains(rows[i]));
        law_evidence_text_counts(rows[i].message, conversation_id, turn_id);
    }
    if rows.len() <= MEMORY_EVIDENCE_MAX_MESSAGES {
        assert(rows =~= all);
        assert forall|row: TurnMessageRow<Seq<char>>|
            messages.contains(row) && of_turn(conversation_id, turn_id)(row) && evidence_of(
                row.message,
            ) is Some implies #[trigger] rows.contains(row) by {
            law_evidence_text_counts(row.message, conversation_id, turn_id);
            assert(hits.contains(row));
            assert(all.contains(row));
        }
    }
}

/// How many bytes a message's evidence text has.
pub open spec fn text_bytes(row: TurnMessageRow<Seq<char>>) -> int {
    match row.accepted_content {
        Some(text) => encode_utf8(text).len() as int,
        None => 0,
    }
}

/// How many bytes the evidence texts have together.
pub open spec fn total_bytes(rows: Seq<TurnMessageRow<Seq<char>>>) -> int
    decreases rows.len(),
{
    if rows.len() == 0 {
        0
    } else {
        total_bytes(rows.drop_last()) + text_bytes(rows.last())
    }
}

/// Whether evidence exceeds what one batch may hold.
pub open spec fn over_limit(rows: Seq<TurnMessageRow<Seq<char>>>) -> bool {
    rows.len() > MEMORY_EVIDENCE_MAX_MESSAGES || total_bytes(rows) > MEMORY_EVIDENCE_MAX_BYTES
}

/// The time of the earliest message of a turn, whether it counts or not.
pub open spec fn earliest_at(
    messages: Seq<TurnMessageRow<Seq<char>>>,
    hit: spec_fn(TurnMessageRow<Seq<char>>) -> bool,
) -> Option<i64>
    decreases messages.len(),
{
    if messages.len() == 0 {
        None
    } else {
        let rest = earliest_at(messages.drop_last(), hit);
        let last = messages.last();
        if !hit(last) {
            rest
        } else {
            match rest {
                Some(time) => Some(
                    if last.message.created_at < time {
                        last.message.created_at
                    } else {
                        time
                    },
                ),
                None => Some(last.message.created_at),
            }
        }
    }
}

/// Whether the user wrote a text in the evidence.
pub open spec fn user_wrote(rows: Seq<TurnMessageRow<Seq<char>>>) -> bool {
    exists|i: int|
        0 <= i < rows.len() && (#[trigger] rows[i]).message.position == Some("right"@)
            && rows[i].message.message_type == "text"@
}

/// Whether the assistant spoke in the evidence.
pub open spec fn assistant_spoke(rows: Seq<TurnMessageRow<Seq<char>>>) -> bool {
    exists|i: int|
        0 <= i < rows.len() && (#[trigger] rows[i]).message.position == Some("left"@)
}

/// What a snapshot hash covers of a message besides its text.
pub open spec fn message_fields(row: TurnMessageRow<Seq<char>>) -> Seq<JsonScalar<Seq<char>>> {
    seq![
        JsonScalar::Text(row.message.id),
        text_or_null(row.message.msg_id),
        JsonScalar::Text(row.message.message_type),
        text_or_null(row.message.position),
        text_or_null(row.message.status),
        JsonScalar::Flag(row.message.hidden),
        JsonScalar::Int(row.message.created_at),
        JsonScalar::Int(text_bytes(row) as i64),
    ]
}

/// The member that holds the evidence text of a kind of message.
pub open spec fn evidence_member(message_type: Seq<char>) -> Seq<char> {
    if message_type == "tool_result_summary"@ {
        "summary"@
    } else {
        "content"@
    }
}

/// A message as it is handed on: its content is its evidence text alone.
pub open spec fn shown_message(row: TurnMessageRow<Seq<char>>) -> MessageRow<Seq<char>> {
    MessageRow {
        content: json_object_text(
            seq![
                member(
                    evidence_member(row.message.message_type),
                    text_or_null(row.accepted_content),
                ),
            ],
        ),
        ..row.message
    }
}

/// What a snapshot hash covers of a message; its text only where all texts are
/// within the limit.
pub open spec fn message_frames(row: TurnMessageRow<Seq<char>>, with_text: bool) -> Seq<u8> {
    let fields = framed(json_array_bytes(message_fields(row)));
    match row.accepted_content {
        Some(text) => if with_text {
            fields + framed(encode_utf8(text))
        } else {
            fields
        },
        None => fields,
    }
}

/// What a snapshot hash covers of the messages.
pub open spec fn messages_frames(rows: Seq<TurnMessageRow<Seq<char>>>, with_text: bool) -> Seq<u8>
    decreases rows.len(),
{
    if rows.len() == 0 {
        Seq::empty()
    } else {
        messages_frames(rows.drop_last(), with_text) + message_frames(rows.last(), with_text)
    }
}

/// What a snapshot hash covers.
pub open spec fn snapshot_material(
    conversation_id: Seq<char>,
    turn_id: Seq<char>,
    rows: Seq<TurnMessageRow<Seq<char>>>,
) -> Seq<u8> {
    framed(encode_utf8(TURN_SNAPSHOT_VERSION@)) + framed(encode_utf8(conversation_id)) + framed(
        encode_utf8(turn_id),
    ) + framed(
        json_array_bytes(
            seq![
                JsonScalar::Int(rows.len() as i64),
                JsonScalar::Int(total_bytes(rows) as i64),
                JsonScalar::Flag(over_limit(rows)),
            ],
        ),
    ) + messages_frames(rows, !over_limit(rows))
}

/// The canonical snapshot of a turn.
#[derive(Debug, Clone, PartialEq, Eq)]
pub struct CanonicalTurnSnapshot {
    pub hash: String,
    pub message_count: i64,
    pub content_bytes: i64,
    pub earliest_all_at: Option<i64>,
    pub has_user_work: bool,
    pub has_assistant_outcome: bool,
    pub absolute_limit_exceeded: bool,
    pub messages: Vec<MessageRow>,
}

/// The model of a turn snapshot.
#[verifier::ext_equal]
pub struct SnapshotModel {
    pub hash: Seq<char>,
    pub message_count: i64,
    pub content_bytes: i64,
    pub earliest_all_at: Option<i64>,
    pub has_user_work: bool,
    pub has_assistant_outcome: bool,
    pub absolute_limit_exceeded: bool,
    pub messages: Seq<MessageRow<Seq<char>>>,
}

impl View for CanonicalTurnSnapshot {
    type V = SnapshotModel;

    open spec fn view(&self) -> SnapshotModel {
        SnapshotModel {
            hash: self.hash@,
            message_count: self.message_count,
            content_bytes: self.content_bytes,
            earliest_all_at: self.earliest_all_at,
            has_user_work: self.has_user_work,
            has_assistant_outcome: self.has_assistant_outcome,
            absolute_limit_exceeded: self.absolute_limit_exceeded,
            messages: model(self.messages@),
        }
    }
}

/// The messages of evidence rows as they are handed on.
pub open spec fn shown_messages(
    rows: Seq<TurnMessageRow<Seq<char>>>,
) -> Seq<MessageRow<Seq<char>>> {
    Seq::new(rows.len(), |i: int| shown_message(rows[i]))
}

/// The snapshot of a turn, or why there is none.
pub open spec fn snapshot_of(
    messages: Seq<TurnMessageRow<Seq<char>>>,
    conversation_id: Seq<char>,
    turn_id: Seq<char>,
) -> Result<SnapshotModel, DbError<Seq<char>>> {
    let rows = turn_evidence(messages, conversation_id, turn_id);
    let exceeded = over_limit(rows);
    if total_bytes(rows) > i64::MAX {
        Err(DbError::Conflict("Message size overflow"@))
    } else {
        Ok(
            SnapshotModel {
                hash: sha256_hex_of(snapshot_material(conversation_id, turn_id, rows)),
                message_count: rows.len() as i64,
                content_bytes: total_bytes(rows) as i64,
                earliest_all_at: earliest_at(messages, of_turn(conversation_id, turn_id)),
                has_user_work: exceeded || user_wrote(rows),
                has_assistant_outcome: exceeded || assistant_spoke(rows),
                absolute_limit_exceeded: exceeded,
                messages: if exceeded {
                    Seq::empty()
                } else {
                    shown_messages(rows)
                },
            },
        )
    }
}

/// What a snapshot came to.
pub open spec fn snapshot_result(
    result: Result<CanonicalTurnSnapshot, DbError>,
) -> Result<SnapshotModel, DbError<Seq<char>>> {
    match result {
        Ok(snapshot) => Ok(snapshot@),
        Err(error) => Err(error@),
    }
}

proof fn lemma_total_bytes_grows(rows: Seq<TurnMessageRow<Seq<char>>>, size: int)
    requires
        0 <= size <= rows.len(),
    ensures
        0 <= total_bytes(rows.take(size)) <= total_bytes(rows),
    decreases rows.len(),
{
    if size == rows.len() {
        assert(rows.take(size) =~= rows);
        if rows.len() > 0 {
            lemma_total_bytes_grows(rows.drop_last(), 0);
        }
    } else {
        assert(rows.drop_last().take(size) =~= rows.take(size));
        lemma_total_bytes_grows(rows.drop_last(), size);
    }
}

fn count_bytes(rows: &Vec<TurnMessageRow>) -> (total: Option<i64>)
    ensures
        match total {
            Some(number) => number == total_bytes(model(rows@)),
            None => total_bytes(model(rows@)) > i64::MAX,
        },
{
    let mut total: i64 = 0;
    let mut i: usize = 0;
    while i < rows.len()
        invariant
            i <= rows.len(),
            0 <= total == total_bytes(model(rows@).take(i as int)),
        decreases rows.len() - i,
    {
        let ghost next = model(rows@).take(i as int + 1);
        proof {
            assert(next.drop_last() =~= model(rows@).take(i as int));
            assert(next.last() == rows[i as int]@);
            lemma_total_bytes_grows(model(rows@), i as int + 1);
        }
        let size: usize = match &rows[i].accepted_content {
            Some(text) => text.as_str().as_bytes().len(),
            None => 0,
        };
        assert(size == text_bytes(rows[i as int]@));
        if size as u64 > (i64::MAX - total) as u64 {
            return None;
        }
        total = total + size as i64;
        i = i + 1;
    }
    assert(model(rows@).take(i as int) =~= model(rows@));
    Some(total)
}

/// Finds the time of the earliest selected message.
pub fn find_earliest<H: Fn(&TurnMessageRow) -> bool>(
    messages: &Vec<TurnMessageRow>,
    hit: H,
    Ghost(hit_spec): Ghost<spec_fn(TurnMessageRow<Seq<char>>) -> bool>,
) -> (time: Option<i64>)
    requires
        forall|r: TurnMessageRow| hit.requires((&r,)),
        forall|r: TurnMessageRow, b: bool| hit.ensures((&r,), b) ==> b == hit_spec(r@),
    ensures
        time == earliest_at(model(messages@), hit_spec),
{
    let mut time: Option<i64> = None;
    let mut i: usize = 0;
    while i < messages.len()
        invariant
            i <= messages.len(),
            time == earliest_at(model(messages@).take(i as int), hit_spec),
            forall|r: TurnMessageRow| hit.requires((&r,)),
            forall|r: TurnMessageRow, b: bool| hit.ensures((&r,), b) ==> b == hit_spec(r@),
        decreases messages.len() - i,
    {
        let ghost next = model(messages@).take(i as int + 1);
        proof {
            assert(next.drop_last() =~= model(messages@).take(i as int));
            assert(next.last() == messages[i as int]@);
        }
        if hit(&messages[i]) {
            let at: i64 = messages[i].message.created_at;
            time = match time {
                Some(earlier) => Some(if at < earlier { at } else { earlier }),
                None => Some(at),
            };
        }
        i = i + 1;
    }
    assert(model(messages@).take(i as int) =~= model(messages@));
    time
}

fn collect_evidence(
    messages: &Vec<TurnMessageRow>,
    conversation_id: &str,
    turn_id: &str,
) -> (rows: Vec<TurnMessageRow>)
    ensures
        model(rows@) == turn_evidence(model(messages@), conversation_id@, turn_id@),
{
    let hits = select_where(
        messages,
        |row: &TurnMessageRow| -> (yes: bool)
            ensures yes == eligible(conversation_id@, turn_id@)(row@)
            {
                same(row.message.conversation_id.as_str(), conversation_id) && is_some_text(
                    &row.message.turn_id,
                    turn_id,
                ) && is_presentable(&row.message) && MemoryEvidenceMessageKind::from_db_type(
                    row.message.message_type.as_str(),
                ).is_some() && match &row.accepted_content {
                    Some(text) => !blank(text.as_str()),
                    None => false,
                }
            },
        Ghost(eligible(conversation_id@, turn_id@)),
    );
    let sorted = sort_rows(
        hits,
        |a: &TurnMessageRow, b: &TurnMessageRow| -> (yes: bool)
            ensures yes == earlier_message()(a@, b@)
            {
                a.message.created_at < b.message.created_at || (a.message.created_at
                    == b.message.created_at && before(
                    a.message.id.as_str(),
                    b.message.id.as_str(),
                ))
            },
        Ghost(earlier_message()),
    );
    take_page(&sorted, 0, MEMORY_EVIDENCE_MAX_MESSAGES + 1)
}

/// Rewrites a message's content to its evidence text alone, which is then the
/// evidence of the message.
fn show_message(row: &TurnMessageRow) -> (shown: MessageRow)
    ensures
        shown@ == shown_message(row@),
        eligible(row@.message.conversation_id, row@.message.turn_id->0)(row@)
            && row@.message.turn_id is Some ==> evidence_of(shown@) == row@.accepted_content,
{
    let name = if same(row.message.message_type.as_str(), "tool_result_summary") {
        "summary"
    } else {
        "content"
    };
    let mut fields: Vec<JsonField> = Vec::new();
    fields.push(json_field(name, json_opt(borrow_opt(&row.accepted_content))));
    assert(model(fields@) =~= seq![
        member(evidence_member(row@.message.message_type), text_or_null(row@.accepted_content)),
    ]);
    let content = write_object(&fields);
    proof {
        if row@.accepted_content is Some {
            let name = evidence_member(row@.message.message_type);
            let members = one_member_read(name, row@.accepted_content->0)->0;
            assert(fields@[0]@ == model(fields@)[0]);
            assert(fields@[0].value is Text);
            assert(fields@[0].value->Text_0@ == row@.accepted_content->0);
            assert(json_members(content@) == Some(members));
            reveal_strlit("text");
            reveal_strlit("artifact");
            reveal_strlit("tool_result_summary");
            assert("text"@.len() == 4 && "artifact"@.len() == 8 && "tool_result_summary"@.len()
                == 19);
            assert(named(name)(members[0]));
            lemma_lookup(members, named(name));
        }
    }
    MessageRow { content, ..row.message.duplicate() }
}

fn push_fields(bytes: &mut Vec<u8>, row: &TurnMessageRow, size: i64)
    requires
        size == text_bytes(row@),
    ensures
        final(bytes)@ == old(bytes)@ + framed(json_array_bytes(message_fields(row@))),
{
    let mut items: Vec<JsonScalar> = Vec::new();
    items.push(json_text(row.message.id.as_str()));
    items.push(json_opt(borrow_opt(&row.message.msg_id)));
    items.push(json_text(row.message.message_type.as_str()));
    items.push(json_opt(borrow_opt(&row.message.position)));
    items.push(json_opt(borrow_opt(&row.message.status)));
    items.push(JsonScalar::Flag(row.message.hidden));
    items.push(JsonScalar::Int(row.message.created_at));
    items.push(JsonScalar::Int(size));
    assert(model(items@) =~= message_fields(row@));
    push_framed(bytes, encode_array(items).as_slice());
}

/// Takes the snapshot of a turn over the messages that are stored.
pub fn canonical_turn_snapshot(
    messages: &Vec<TurnMessageRow>,
    conversation_id: &str,
    turn_id: &str,
) -> (result: Result<CanonicalTurnSnapshot, DbError>)
    ensures
        snapshot_result(result) == snapshot_of(model(messages@), conversation_id@, turn_id@),
{
    let rows = collect_evidence(messages, conversation_id, turn_id);
    let ghost evidence = model(rows@);
    let content_bytes: i64 = match count_bytes(&rows) {
        Some(number) => number,
        None => {
            return Err(conflict("Message size overflow"));
        },
    };
    proof {
        law_evidence_is_eligible(model(messages@), conversation_id@, turn_id@);
    }
    let message_count: i64 = rows.len() as i64;
    let exceeded = rows.len() > MEMORY_EVIDENCE_MAX_MESSAGES || content_bytes
        > MEMORY_EVIDENCE_MAX_BYTES as i64;
    let earliest_all_at = find_earliest(
        messages,
        |row: &TurnMessageRow| -> (yes: bool)
            ensures yes == of_turn(conversation_id@, turn_id@)(row@)
            {
                same(row.message.conversation_id.as_str(), conversation_id) && is_some_text(
                    &row.message.turn_id,
                    turn_id,
                )
            },
        Ghost(of_turn(conversation_id@, turn_id@)),
    );
    let mut bytes: Vec<u8> = Vec::new();
    push_framed(&mut bytes, TURN_SNAPSHOT_VERSION.as_bytes());
    push_framed(&mut bytes, conversation_id.as_bytes());
    push_framed(&mut bytes, turn_id.as_bytes());
    let mut totals: Vec<JsonScalar> = Vec::new();
    totals.push(JsonScalar::Int(message_count));
    totals.push(JsonScalar::Int(content_bytes));
    totals.push(JsonScalar::Flag(exceeded));
    assert(model(totals@) =~= seq![
        JsonScalar::Int(evidence.len() as i64),
        JsonScalar::Int(total_bytes(evidence) as i64),
        JsonScalar::Flag(over_limit(evidence)),
    ]);
    push_framed(&mut bytes, encode_array(totals).as_slice());
    let ghost head = bytes@;
    let mut user_work = exceeded;
    let mut assistant_outcome = exceeded;
    let mut plain: Vec<MessageRow> = Vec::new();
    let mut i: usize = 0;
    while i < rows.len()
        invariant
            i <= rows.len(),
            evidence == model(rows@),
            evidence == turn_evidence(model(messages@), conversation_id@, turn_id@),
            exceeded == over_limit(evidence),
            content_bytes == total_bytes(evidence),
            forall|k: int|
                0 <= k < evidence.len() ==> eligible(conversation_id@, turn_id@)(
                    #[trigger] evidence[k],
                ),
            bytes@ =~= head + messages_frames(evidence.take(i as int), !exceeded),
            user_work == (exceeded || user_wrote(evidence.take(i as int))),
            assistant_outcome == (exceeded || assistant_spoke(evidence.take(i as int))),
            exceeded ==> model(plain@) =~= Seq::empty(),
            !exceeded ==> model(plain@) =~= shown_messages(evidence.take(i as int)),
        decreases rows.len() - i,
    {
        let ghost done = evidence.take(i as int);
        let ghost next = evidence.take(i as int + 1);
        proof {
            assert(next.drop_last() =~= done);
            assert(next.last() == rows[i as int]@);
            lemma_total_bytes_grows(evidence, i as int + 1);
            lemma_total_bytes_grows(evidence, i as int);
        }
        let row = &rows[i];
        let size: i64 = match &row.accepted_content {
            Some(text) => text.as_str().as_bytes().len() as i64,
            None => 0,
        };
        push_fields(&mut bytes, row, size);
        if is_some_text(&row.message.position, "right") && same(
            row.message.message_type.as_str(),
            "text",
        ) {
            user_work = true;
        }
        if is_some_text(&row.message.position, "left") {
            assistant_outcome = true;
        }
        proof {
            lemma_user_wrote_step(next);
            lemma_assistant_spoke_step(next);
        }
        if !exceeded {
            let copy = show_message(row);
            assert(eligible(conversation_id@, turn_id@)(evidence[i as int]));
            match memory_evidence_content(&copy) {
                Some(text) => {
                    push_framed(&mut bytes, text.as_str().as_bytes());
                    let ghost prior = plain@;
                    plain.push(copy);
                    proof {
                        assert(model(plain@) =~= model(prior).push(copy@));
                        assert(shown_messages(next) =~= shown_messages(done).push(
                            shown_message(next.last()),
                        ));
                    }
                },
                None => {
                    assert(false);
                    return Err(conflict("Canonical Memory evidence row became invalid"));
                },
            }
        }
        i = i + 1;
    }
    assert(evidence.take(i as int) =~= evidence);
    assert(bytes@ =~= snapshot_material(conversation_id@, turn_id@, evidence));
    let snapshot = CanonicalTurnSnapshot {
        hash: sha256_hex(&bytes),
        message_count,
        content_bytes,
        earliest_all_at,
        has_user_work: user_work,
        has_assistant_outcome: assistant_outcome,
        absolute_limit_exceeded: exceeded,
        messages: plain,
    };
    Ok(snapshot)
}

proof fn lemma_user_wrote_step(rows: Seq<TurnMessageRow<Seq<char>>>)
    requires
        rows.len() > 0,
    ensures
        user_wrote(rows) == (user_wrote(rows.drop_last()) || (rows.last().message.position == Some(
            "right"@,
        ) && rows.last().message.message_type == "text"@)),
{
    let head = rows.drop_last();
    if user_wrote(head) {
        let i = choose|i: int|
            0 <= i < head.len() && (#[trigger] head[i]).message.position == Some("right"@)
                && head[i].message.message_type == "text"@;
        assert(rows[i] == head[i]);
    }
    if user_wrote(rows) {
        let i = choose|i: int|
            0 <= i < rows.len() && (#[trigger] rows[i]).message.position == Some("right"@)
                && rows[i].message.message_type == "text"@;
        if i < head.len() {
            assert(rows[i] == head[i]);
        }
    }
    assert(rows.last() == rows[rows.len() - 1]);
}

proof fn lemma_assistant_spoke_step(rows: Seq<TurnMessageRow<Seq<char>>>)
    requires
        rows.len() > 0,
    ensures
        assistant_spoke(rows) == (assistant_spoke(rows.drop_last())
            || rows.last().message.position == Some("left"@)),
{
    let head = rows.drop_last();
    if assistant_spoke(head) {
        let i = choose|i: int|
            0 <= i < head.len() && (#[trigger] head[i]).message.position == Some("left"@);
        assert(rows[i] == head[i]);
    }
    if assistant_spoke(rows) {
        let i = choose|i: int|
            0 <= i < rows.len() && (#[trigger] rows[i]).message.position == Some("left"@);
        if i < head.len() {
            assert(rows[i] == head[i]);
        }
    }
    assert(rows.last() == rows[rows.len() - 1]);
}

} // verus!
