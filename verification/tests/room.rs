use typing_core::connection::Player;
use typing_core::protocol::{FromPlayerMsg, PlayerState, TimeSpan, ToPlayerMsg};
use typing_core::room::{listener_event, Room, RoomMsg, RACE_COUNTDOWN_SECS};

fn player(id: u32, name: &str) -> Player {
    Player::new(id, name.to_string())
}

fn states(room: &Room) -> Vec<(String, PlayerState)> {
    room.snapshot_members().into_iter().map(|m| (m.username, m.state)).collect()
}

#[test]
fn first_joiner_becomes_host() {
    let mut room = Room::new(900, 10);
    let sends = room.join(player(42, "ada"));
    assert_eq!(sends.len(), 1);
    assert_eq!(sends[0].to, 42);
    match &sends[0].msg {
        ToPlayerMsg::Init { other_players, host } => {
            assert!(other_players.is_empty());
            assert_eq!(host, "ada");
        },
        other => panic!("expected init, got {:?}", other),
    }
}

#[test]
fn creator_takes_host_role_on_joining() {
    let mut room = Room::new(900, 10);
    room.join(player(42, "ada"));
    let sends = room.join(player(10, "creator"));
    // the creator's join is announced as a host takeover
    assert_eq!(sends.len(), 2);
    match &sends[0].msg {
        ToPlayerMsg::Init { other_players, host } => {
            assert_eq!(other_players.len(), 1);
            assert_eq!(other_players[0].username, "ada");
            assert!(matches!(other_players[0].state, PlayerState::NotReady));
            assert_eq!(host, "creator");
        },
        other => panic!("expected init, got {:?}", other),
    }
    assert_eq!(sends[1].to, 42);
    match &sends[1].msg {
        ToPlayerMsg::Join { joining_player, is_host } => {
            assert_eq!(joining_player, "creator");
            assert!(is_host);
        },
        other => panic!("expected join notice, got {:?}", other),
    }
}

#[test]
fn ordinary_joiner_leaves_host_in_place() {
    let mut room = Room::new(900, 10);
    room.join(player(1, "ada"));
    let sends = room.join(player(2, "bob"));
    match &sends[0].msg {
        ToPlayerMsg::Init { host, .. } => assert_eq!(host, "ada"),
        other => panic!("expected init, got {:?}", other),
    }
    match &sends[1].msg {
        ToPlayerMsg::Join { joining_player, is_host } => {
            assert_eq!(joining_player, "bob");
            assert!(!is_host);
        },
        other => panic!("expected join notice, got {:?}", other),
    }
}

#[test]
fn readiness_is_set_and_broadcast_to_others() {
    let mut room = Room::new(900, 1);
    room.join(player(1, "ada"));
    room.join(player(2, "bob"));
    let sends = room.set_readiness(2, true);
    assert_eq!(sends.len(), 1);
    assert_eq!(sends[0].to, 1);
    assert!(matches!(&sends[0].msg, ToPlayerMsg::Ready { ready_player } if ready_player == "bob"));
    assert_eq!(
        states(&room),
        vec![("ada".to_string(), PlayerState::NotReady), ("bob".to_string(), PlayerState::Ready)]
    );
    let sends = room.set_readiness(2, false);
    assert_eq!(sends.len(), 1);
    assert!(
        matches!(&sends[0].msg, ToPlayerMsg::NotReady { not_ready_player } if not_ready_player == "bob")
    );
    assert_eq!(states(&room)[1].1, PlayerState::NotReady);
}

#[test]
fn start_by_non_host_changes_no_state() {
    let mut room = Room::new(900, 1);
    room.join(player(1, "ada"));
    room.join(player(2, "bob"));
    room.set_readiness(2, true);
    let before = states(&room);
    let sends = room.start(2);
    assert_eq!(sends.len(), 1);
    assert_eq!(sends[0].to, 2);
    match &sends[0].msg {
        ToPlayerMsg::Error { title, .. } => assert_eq!(*title, "You aren't the host!"),
        other => panic!("expected error, got {:?}", other),
    }
    assert_eq!(states(&room), before);
}

#[test]
fn host_start_races_ready_members_and_locks_readiness() {
    // A (host), B, C all ready; A starts: everyone hears the same prepare,
    // all three race, and a later readiness change is rejected
    let mut room = Room::new(900, 1);
    room.join(player(1, "a"));
    room.join(player(2, "b"));
    room.join(player(3, "c"));
    room.set_readiness(1, true);
    room.set_readiness(2, true);
    room.set_readiness(3, true);
    let sends = room.start(1);
    assert_eq!(sends.len(), 3);
    let mut seeds = Vec::new();
    for (i, env) in sends.iter().enumerate() {
        assert_eq!(env.to, (i + 1) as u32);
        match &env.msg {
            ToPlayerMsg::Prepare { time_until_race_start, seed } => {
                assert_eq!(time_until_race_start.secs, RACE_COUNTDOWN_SECS);
                assert_eq!(time_until_race_start.nanos, 0);
                seeds.push(*seed);
            },
            other => panic!("expected prepare, got {:?}", other),
        }
    }
    assert_eq!(seeds[0], seeds[1]);
    assert_eq!(seeds[1], seeds[2]);
    for (_, st) in states(&room) {
        assert!(matches!(st, PlayerState::Racing));
    }
    let sends = room.set_readiness(2, true);
    assert_eq!(sends.len(), 1);
    assert_eq!(sends[0].to, 2);
    assert!(matches!(&sends[0].msg, ToPlayerMsg::Error { title, .. } if *title == "Too late!"));
    assert!(matches!(states(&room)[1].1, PlayerState::Racing));
}

#[test]
fn not_ready_members_spectate() {
    let mut room = Room::new(900, 1);
    room.join(player(1, "a"));
    room.join(player(2, "b"));
    room.set_readiness(1, true);
    room.start(1);
    assert_eq!(
        states(&room),
        vec![("a".to_string(), PlayerState::Racing), ("b".to_string(), PlayerState::NotReady)]
    );
}

#[test]
fn updates_and_finishes_reach_the_others() {
    let mut room = Room::new(900, 1);
    room.join(player(1, "a"));
    room.join(player(2, "b"));
    let sends = room.update(1, 55);
    assert_eq!(sends.len(), 1);
    assert_eq!(sends[0].to, 2);
    assert!(
        matches!(&sends[0].msg, ToPlayerMsg::Update { player, progress } if player == "a" && *progress == 55)
    );
    let sends = room.finish(2, TimeSpan { secs: 61, nanos: 250 });
    assert_eq!(sends.len(), 1);
    assert_eq!(sends[0].to, 1);
    match &sends[0].msg {
        ToPlayerMsg::Finish { player, duration } => {
            assert_eq!(player, "b");
            assert_eq!(duration.secs, 61);
            assert_eq!(duration.nanos, 250);
        },
        other => panic!("expected finish, got {:?}", other),
    }
    assert_eq!(states(&room)[1].1, PlayerState::Finished);
}

#[test]
fn unknown_senders_are_ignored() {
    let mut room = Room::new(900, 1);
    room.join(player(1, "a"));
    assert!(room.set_readiness(9, true).is_empty());
    assert!(room.start(9).is_empty());
    assert!(room.update(9, 1).is_empty());
    assert!(room.finish(9, TimeSpan { secs: 0, nanos: 0 }).is_empty());
    assert!(room.leave(9).sends.is_empty());
}

#[test]
fn departing_host_is_replaced_by_a_ready_member() {
    // host A leaves a room with B ready and C not ready: B inherits the
    // host role and everyone remaining hears it in the leave notice
    let mut room = Room::new(900, 1);
    room.join(player(1, "a"));
    room.join(player(2, "b"));
    room.join(player(3, "c"));
    room.set_readiness(2, true);
    let effects = room.leave(1);
    assert!(effects.arm_deletion.is_none());
    assert_eq!(effects.sends.len(), 2);
    assert_eq!(effects.sends[0].to, 2);
    assert_eq!(effects.sends[1].to, 3);
    for env in &effects.sends {
        match &env.msg {
            ToPlayerMsg::Leave { leaving_player, new_host } => {
                assert_eq!(leaving_player, "a");
                assert_eq!(new_host.as_deref(), Some("b"));
            },
            other => panic!("expected leave notice, got {:?}", other),
        }
    }
}

#[test]
fn departing_non_host_keeps_the_host() {
    let mut room = Room::new(900, 1);
    room.join(player(1, "a"));
    room.join(player(2, "b"));
    room.join(player(3, "c"));
    let effects = room.leave(2);
    assert_eq!(effects.sends.len(), 2);
    for env in &effects.sends {
        match &env.msg {
            ToPlayerMsg::Leave { leaving_player, new_host } => {
                assert_eq!(leaving_player, "b");
                assert!(new_host.is_none());
            },
            other => panic!("expected leave notice, got {:?}", other),
        }
    }
}

#[test]
fn last_leave_arms_deletion_and_the_ticket_fires_once() {
    let mut room = Room::new(900, 1);
    room.join(player(1, "a"));
    let effects = room.leave(1);
    assert!(effects.sends.is_empty());
    let ticket = effects.arm_deletion.expect("timer armed for the empty room");
    // the timer fires: the room reports its deletion exactly once
    assert_eq!(room.delete(ticket), Some(900));
    assert_eq!(room.delete(ticket), None);
}

#[test]
fn join_before_the_timer_defuses_the_ticket() {
    let mut room = Room::new(900, 1);
    room.join(player(1, "a"));
    let ticket = room.leave(1).arm_deletion.expect("timer armed");
    // a fresh join arrives before the timer fires
    room.join(player(2, "b"));
    assert_eq!(room.delete(ticket), None);
    // the room lives on: a later empty-room cycle arms a fresh ticket,
    // and the stale one still cannot fire
    let newer = room.leave(2).arm_deletion.expect("timer armed again");
    assert_ne!(newer, ticket);
    assert_eq!(room.delete(ticket), None);
    assert_eq!(room.delete(newer), Some(900));
}

#[test]
fn listener_translates_player_messages() {
    assert!(matches!(
        listener_event(5, FromPlayerMsg::Ready),
        RoomMsg::Ready { player_id: 5 }
    ));
    assert!(matches!(
        listener_event(5, FromPlayerMsg::NotReady),
        RoomMsg::NotReady { player_id: 5 }
    ));
    assert!(matches!(
        listener_event(5, FromPlayerMsg::Start),
        RoomMsg::Start { player_id: 5 }
    ));
    assert!(matches!(
        listener_event(5, FromPlayerMsg::Update { progress: 9 }),
        RoomMsg::Update { player_id: 5, progress: 9 }
    ));
    assert!(matches!(
        listener_event(5, FromPlayerMsg::Finish { duration: TimeSpan { secs: 3, nanos: 0 } }),
        RoomMsg::Finish { player_id: 5, duration: TimeSpan { secs: 3, nanos: 0 } }
    ));
}
