use typing_core::connection::{handshake_ok, ping_frame, Frame, Player, ReadResult};

#[test]
fn probe_carries_the_expected_payload() {
    match ping_frame() {
        Frame::Ping(payload) => assert_eq!(payload, vec![0, 1, 2, 3]),
        other => panic!("expected a ping, got {:?}", other),
    }
}

#[test]
fn only_the_matching_pong_passes() {
    assert!(handshake_ok(&ReadResult::Frame(Frame::Pong(vec![0, 1, 2, 3]))));
    assert!(!handshake_ok(&ReadResult::Frame(Frame::Pong(vec![0, 1, 2]))));
    assert!(!handshake_ok(&ReadResult::Frame(Frame::Pong(vec![3, 2, 1, 0]))));
    assert!(!handshake_ok(&ReadResult::Frame(Frame::Ping(vec![0, 1, 2, 3]))));
    assert!(!handshake_ok(&ReadResult::Frame(Frame::Text("pong".to_string()))));
    assert!(!handshake_ok(&ReadResult::Frame(Frame::Close)));
    assert!(!handshake_ok(&ReadResult::Closed));
    assert!(!handshake_ok(&ReadResult::Failed));
}

#[test]
fn player_carries_its_identity() {
    let p = Player::new(12, "ada".to_string());
    assert_eq!(p.id, 12);
    assert_eq!(p.username, "ada");
}
