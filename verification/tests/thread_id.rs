use agent_monitor::thread_id::id;
use agent_monitor::thread_id::thread_id;
use agent_monitor::thread_id::ThreadId;
use agent_monitor::thread_id::ThreadIdError;

#[test]
fn fixture_thread_id_parses_its_text() {
    let t = thread_id();
    assert_eq!(t.uuid, 0x0198a9d1_7f58_7d42_99e8_c6262c249001);
    assert_eq!(t.to_uuid_string(), "0198a9d1-7f58-7d42-99e8-c6262c249001");
}

#[test]
fn thread_ids_parse_every_uuid_form() {
    let expected = id(0x00000000_0000_0000_0000_000000000101);
    for text in [
        "00000000-0000-0000-0000-000000000101",
        "00000000000000000000000000000101",
        "{00000000-0000-0000-0000-000000000101}",
        "URN:uuid:00000000-0000-0000-0000-000000000101",
    ] {
        assert_eq!(ThreadId::from_string(text), Ok(expected));
    }
    assert_eq!(
        ThreadId::from_string("ABCDEF00-0000-0000-0000-000000000000").map(|t| t.uuid),
        Ok(0xabcdef00_0000_0000_0000_000000000000)
    );
}

#[test]
fn malformed_thread_ids_are_refused() {
    for text in [
        "",
        "not-a-uuid",
        "00000000-0000-0000-0000-00000000010g",
        "00000000_0000-0000-0000-000000000101",
        "(00000000-0000-0000-0000-000000000101)",
        "urn:uuix:00000000-0000-0000-0000-000000000101",
    ] {
        assert_eq!(ThreadId::from_string(text), Err(ThreadIdError::InvalidUuid));
    }
}

#[test]
fn thread_id_text_is_hyphenated_lower_case() {
    assert_eq!(
        ThreadId::from_u128(0xABCDEF).to_uuid_string(),
        "00000000-0000-0000-0000-000000abcdef"
    );
}
