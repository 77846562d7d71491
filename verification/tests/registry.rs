use typing_core::room_manager::{CreateRoomResponse, JoinRoomParams, RoomRegistry};

#[test]
fn created_rooms_are_registered_until_deleted() {
    let mut registry = RoomRegistry::new();
    // a creation can fail only by colliding with a live room, so the first
    // one cannot fail
    let (room_id, room) = registry.create_room(77).expect("empty registry cannot collide");
    assert!(registry.contains(room_id));
    assert!(!registry.contains(room_id.wrapping_add(1)));
    drop(room);
    registry.delete_room(room_id);
    assert!(!registry.contains(room_id));
}

#[test]
fn many_rooms_coexist() {
    let mut registry = RoomRegistry::new();
    let mut ids = Vec::new();
    while ids.len() < 20 {
        match registry.create_room(1) {
            Ok((id, _room)) => ids.push(id),
            // the colliding id is handed back, already live
            Err(taken) => assert!(registry.contains(taken)),
        }
    }
    for id in &ids {
        assert!(registry.contains(*id));
    }
    for id in &ids {
        registry.delete_room(*id);
        assert!(!registry.contains(*id));
    }
}

#[test]
fn request_and_response_carry_the_id() {
    let params = JoinRoomParams { room_id: 42 };
    let response = CreateRoomResponse { room_id: params.room_id };
    assert_eq!(response.room_id, 42);
}
