use typing_core::connection::Player;
use typing_core::matchmaking::{Matchmaking, MmsError};
use typing_core::protocol::LobbyMsg;

fn player(id: u32, name: &str) -> Player {
    Player::new(id, name.to_string())
}

#[test]
fn first_join_is_quiet() {
    let mut mm = Matchmaking::new();
    let eff = mm.join(player(1, "ada")).expect("admitted");
    assert_eq!(eff.notices.len(), 0);
    assert!(eff.arm_eviction.is_none());
    assert!(eff.race.is_none());
}

#[test]
fn second_join_arms_timer_and_announces_pairwise() {
    let mut mm = Matchmaking::new();
    mm.join(player(1, "ada")).expect("admitted");
    let eff = mm.join(player(2, "bob")).expect("admitted");
    assert_eq!(eff.arm_eviction, Some(0));
    assert!(eff.race.is_none());
    assert_eq!(eff.notices.len(), 2);
    assert_eq!(eff.notices[0].to, 1);
    match &eff.notices[0].msg {
        LobbyMsg::Joined { username } => assert_eq!(username, "bob"),
        other => panic!("expected joined notice, got {:?}", other),
    }
    assert_eq!(eff.notices[1].to, 2);
    match &eff.notices[1].msg {
        LobbyMsg::Joined { username } => assert_eq!(username, "ada"),
        other => panic!("expected joined notice, got {:?}", other),
    }
}

#[test]
fn duplicate_join_rejected_without_mutation() {
    let mut mm = Matchmaking::new();
    mm.join(player(7, "ada")).expect("admitted");
    let MmsError::JoinError(rejected) = mm.join(player(7, "imposter")).unwrap_err();
    assert_eq!(rejected.id, 7);
    assert_eq!(rejected.username, "imposter");
    // membership is untouched: a third, fresh user still sees one lobby member
    let eff = mm.join(player(8, "bob")).expect("admitted");
    assert_eq!(eff.notices.len(), 2);
    assert_eq!(eff.arm_eviction, Some(0));
}

#[test]
fn fifth_join_starts_race_immediately() {
    let mut mm = Matchmaking::new();
    for (id, name) in [(1, "a"), (2, "b"), (3, "c"), (4, "d")] {
        let eff = mm.join(player(id, name)).expect("admitted");
        assert!(eff.race.is_none());
    }
    let eff = mm.join(player(5, "e")).expect("admitted");
    let race = eff.race.expect("lobby filled");
    assert_eq!(race.lobby_id, 0);
    assert_eq!(race.roster.len(), 5);
    let ids: Vec<u32> = race.roster.iter().map(|p| p.id).collect();
    assert_eq!(ids, vec![1, 2, 3, 4, 5]);
    // the lobby id rolled forward: the next two joiners queue under id 1
    let eff = mm.join(player(6, "f")).expect("admitted");
    assert!(eff.race.is_none());
    let eff = mm.join(player(7, "g")).expect("admitted");
    assert_eq!(eff.arm_eviction, Some(1));
}

#[test]
fn stale_eviction_is_a_no_op() {
    let mut mm = Matchmaking::new();
    for (id, name) in [(1, "a"), (2, "b"), (3, "c"), (4, "d"), (5, "e")] {
        mm.join(player(id, name)).expect("admitted");
    }
    // lobby 0 was drained by the fifth join; its timer fires late
    assert!(mm.evict(0).is_none());
    // and a timer for a lobby id never seen is equally stale
    assert!(mm.evict(42).is_none());
}

#[test]
fn eviction_of_current_lobby_drains_it() {
    let mut mm = Matchmaking::new();
    mm.join(player(1, "ada")).expect("admitted");
    let eff = mm.join(player(2, "bob")).expect("admitted");
    let lobby_id = eff.arm_eviction.expect("timer armed at two members");
    let race = mm.evict(lobby_id).expect("current lobby drained");
    assert_eq!(race.lobby_id, lobby_id);
    assert_eq!(race.roster.len(), 2);
    // a second firing of the same timer is stale
    assert!(mm.evict(lobby_id).is_none());
}

#[test]
fn leave_frees_the_user_for_a_new_join() {
    let mut mm = Matchmaking::new();
    mm.join(player(1, "ada")).expect("admitted");
    mm.join(player(2, "bob")).expect("admitted");
    mm.evict(0).expect("drained");
    // while the session runs, the drained members stay registered
    assert!(matches!(mm.join(player(1, "ada")), Err(MmsError::JoinError(_))));
    // the session reports the leave with the drained lobby id
    mm.leave(1, 0);
    mm.join(player(1, "ada")).expect("free to queue again");
}

#[test]
fn leave_for_a_queued_user_is_stale() {
    let mut mm = Matchmaking::new();
    mm.join(player(1, "ada")).expect("admitted");
    // a leave signal about a user who is queued right now is stale: the
    // record stays and the user is still registered as queued
    mm.leave(1, 0);
    assert!(matches!(mm.join(player(1, "ada")), Err(MmsError::JoinError(_))));
}

#[test]
fn leave_for_wrong_lobby_changes_nothing() {
    let mut mm = Matchmaking::new();
    mm.join(player(1, "ada")).expect("admitted");
    mm.join(player(2, "bob")).expect("admitted");
    mm.evict(0).expect("drained");
    // a stale leave naming some other lobby leaves the record in place
    mm.leave(1, 3);
    assert!(matches!(mm.join(player(1, "ada")), Err(MmsError::JoinError(_))));
}
