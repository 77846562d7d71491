use typing_core::connection::Player;
use typing_core::matchmaking::Matchmaking;
use typing_core::protocol::{DisconnectReason, LobbyMsg, RaceMsg};
use typing_core::session::{listener_step, ListenerAction, ListenerInput, RaceSession};

fn player(id: u32, name: &str) -> Player {
    Player::new(id, name.to_string())
}

fn seed_of(msg: &LobbyMsg) -> [i32; 4] {
    match msg {
        LobbyMsg::Start { seed } => *seed,
        other => panic!("expected start message, got {:?}", other),
    }
}

#[test]
fn listener_decisions() {
    assert_eq!(listener_step(&ListenerInput::Elapsed), ListenerAction::EmitTimeout);
    assert_eq!(listener_step(&ListenerInput::TransportError), ListenerAction::Stop);
    assert_eq!(listener_step(&ListenerInput::Close), ListenerAction::Stop);
    assert_eq!(listener_step(&ListenerInput::OtherFrame), ListenerAction::Continue);
    let update = RaceMsg::Update { username: "ada".to_string(), progress: 3 };
    assert_eq!(
        listener_step(&ListenerInput::Event(update)),
        ListenerAction::Forward { stop: false }
    );
    let finish = RaceMsg::Finish { username: "ada".to_string(), result: 0 };
    assert_eq!(
        listener_step(&ListenerInput::Event(finish)),
        ListenerAction::Forward { stop: true }
    );
}

#[test]
fn timer_eviction_starts_race_with_one_shared_seed() {
    // two players queue; after the eviction timer fires both are drained
    // into one session and receive the same seed
    let mut mm = Matchmaking::new();
    mm.join(player(1, "ada")).expect("admitted");
    let eff = mm.join(player(2, "bob")).expect("admitted");
    let lobby_id = eff.arm_eviction.expect("timer armed");
    let race = mm.evict(lobby_id).expect("drained");
    let (_session, announcements) = RaceSession::start(race);
    assert_eq!(announcements.len(), 2);
    assert_eq!(announcements[0].to, 1);
    assert_eq!(announcements[1].to, 2);
    assert_eq!(seed_of(&announcements[0].msg), seed_of(&announcements[1].msg));
}

#[test]
fn full_lobby_starts_race_with_one_shared_seed() {
    // five joins in sequence: the fifth starts the session at once
    let mut mm = Matchmaking::new();
    for (id, name) in [(1, "a"), (2, "b"), (3, "c"), (4, "d")] {
        mm.join(player(id, name)).expect("admitted");
    }
    let eff = mm.join(player(5, "e")).expect("admitted");
    let race = eff.race.expect("started without waiting for the timer");
    let (_session, announcements) = RaceSession::start(race);
    assert_eq!(announcements.len(), 5);
    let first = seed_of(&announcements[0].msg);
    for (i, env) in announcements.iter().enumerate() {
        assert_eq!(env.to, (i + 1) as u32);
        assert_eq!(seed_of(&env.msg), first);
    }
}

fn session_of_three() -> RaceSession {
    let mut mm = Matchmaking::new();
    mm.join(player(1, "ada")).expect("admitted");
    mm.join(player(2, "bob")).expect("admitted");
    mm.join(player(3, "cyd")).expect("admitted");
    let race = mm.evict(0).expect("drained");
    RaceSession::start(race).0
}

#[test]
fn update_is_relayed_to_everyone_else() {
    let mut session = session_of_three();
    let msg = RaceMsg::Update { username: "bob".to_string(), progress: 17 };
    let sends = session.dispatch(&msg);
    assert_eq!(sends.len(), 2);
    assert_eq!(sends[0].to, 1);
    assert_eq!(sends[1].to, 3);
    for env in &sends {
        match &env.msg {
            RaceMsg::Update { username, progress } => {
                assert_eq!(username, "bob");
                assert_eq!(*progress, 17);
            },
            other => panic!("expected update, got {:?}", other),
        }
    }
}

#[test]
fn finish_is_relayed_to_everyone_else() {
    let mut session = session_of_three();
    let msg = RaceMsg::Finish { username: "ada".to_string(), result: 0x42c80000 };
    let sends = session.dispatch(&msg);
    assert_eq!(sends.len(), 2);
    assert_eq!(sends[0].to, 2);
    assert_eq!(sends[1].to, 3);
}

#[test]
fn timeout_notifies_then_removes_then_announces() {
    let mut session = session_of_three();
    let msg = RaceMsg::Timeout { username: "bob".to_string() };
    assert!(session.has_member_named(&"bob".to_string()));
    let sends = session.dispatch(&msg);
    // the silent member gets the final notice, the remaining two the
    // disconnection
    assert_eq!(sends.len(), 3);
    assert_eq!(sends[0].to, 2);
    assert!(matches!(&sends[0].msg, RaceMsg::Timeout { username } if username == "bob"));
    for env in &sends[1..] {
        match &env.msg {
            RaceMsg::Disconnect { username, reason } => {
                assert_eq!(username, "bob");
                assert!(matches!(reason, DisconnectReason::Timeout));
            },
            other => panic!("expected disconnect, got {:?}", other),
        }
    }
    assert!(!session.has_member_named(&"bob".to_string()));
}

#[test]
fn failed_send_disconnects_and_reports_leave_once() {
    // player 2's outbound send failed: the remaining players hear a
    // disconnect with an unknown reason, and player 2 leaves exactly once
    let mut session = session_of_three();
    let failed = vec![(2u32, "bob".to_string())];
    let (sends, leaves) = session.disconnect_round(&failed);
    assert_eq!(sends.len(), 2);
    assert_eq!(sends[0].to, 1);
    assert_eq!(sends[1].to, 3);
    for env in &sends {
        match &env.msg {
            RaceMsg::Disconnect { username, reason } => {
                assert_eq!(username, "bob");
                assert!(matches!(reason, DisconnectReason::Unknown));
            },
            other => panic!("expected disconnect, got {:?}", other),
        }
    }
    assert_eq!(leaves, vec![(2, 0)]);
    // the session's final flush no longer names the dropped member
    let remaining = session.finish();
    assert_eq!(remaining, vec![(1, 0), (3, 0)]);
}

#[test]
fn cascading_failures_shrink_the_roster_round_by_round() {
    let mut session = session_of_three();
    let (_sends, leaves) = session.disconnect_round(&vec![(1u32, "ada".to_string())]);
    assert_eq!(leaves, vec![(1, 0)]);
    // announcing that disconnect failed for another member too
    let (sends, leaves) = session.disconnect_round(&vec![(3u32, "cyd".to_string())]);
    assert_eq!(leaves, vec![(3, 0)]);
    assert_eq!(sends.len(), 1);
    assert_eq!(sends[0].to, 2);
    // a round with no failures sends nothing and ends the cascade
    let (sends, leaves) = session.disconnect_round(&Vec::new());
    assert!(sends.is_empty());
    assert!(leaves.is_empty());
    assert_eq!(session.finish(), vec![(2, 0)]);
}

#[test]
fn finish_flushes_a_leave_for_every_member() {
    let session = session_of_three();
    assert_eq!(session.finish(), vec![(1, 0), (2, 0), (3, 0)]);
}
