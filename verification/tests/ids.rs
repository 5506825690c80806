use jinn_domain::chat_entry::{ChatEntry, ChatEntryId, ChatEntryKind, SessionId};
use uuid::{Uuid, Variant};

fn assert_random(id: u128) {
    let uuid = Uuid::from_u128(id);
    assert_eq!(uuid.get_version_num(), 4);
    assert_eq!(uuid.get_variant(), Variant::RFC4122);
    assert_eq!((id >> 76) & 0xf, 4);
    assert_eq!((id >> 62) & 3, 2);
}

#[test]
fn identifiers_are_random_uuids() {
    for _ in 0..32 {
        assert_random(ChatEntryId::new().0);
        assert_random(SessionId::new().0);
    }
    for entry in [
        ChatEntry::new(ChatEntryKind::Thinking("hm".to_owned())),
        ChatEntry::user("hello"),
        ChatEntry::tool_call("c1", "read", "{}"),
        ChatEntry::annotation(vec![]),
    ] {
        assert_random(entry.id.0);
    }
    assert_ne!(SessionId::new(), SessionId::new());
    assert_ne!(ChatEntryId::new(), ChatEntryId::new());
}
