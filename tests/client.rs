use injoint::client::Client;
use injoint::room::{Room, RoomStatus};
use std::collections::HashSet;

#[test]
fn client_new_keeps_fields() {
    let c = Client::new(5, Some(2), "label".to_string(), "token".to_string());
    assert_eq!(c.id, 5);
    assert_eq!(c.room_id, Some(2));
    assert_eq!(c.label, "label");
    assert_eq!(c.token, "token");
}

#[test]
fn room_new_keeps_fields() {
    let mut members = HashSet::new();
    members.insert(3u64);
    let room = Room::new(1, 3, members, RoomStatus::Private("secret".to_string()), 0u8);
    assert_eq!(room.id, 1);
    assert_eq!(room.owner_id, 3);
    assert!(room.client_ids.contains(&3));
    assert!(matches!(room.status, RoomStatus::Private(ref s) if s == "secret"));
}
