use aionui_db::memory::evidence::MemoryEvidenceMessageKind;

#[test]
fn memory_evidence_message_kind_requires_exact_canonical_type_names() {
    assert_eq!(
        MemoryEvidenceMessageKind::from_db_type("text"),
        Some(MemoryEvidenceMessageKind::Text),
    );
    assert_eq!(MemoryEvidenceMessageKind::from_db_type("\ttext\t"), None);
    assert_eq!(MemoryEvidenceMessageKind::from_db_type("\u{2003}text\u{2003}"), None);
    assert_eq!(MemoryEvidenceMessageKind::from_db_type("Text"), None);
}
