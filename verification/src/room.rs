//! A persistent room: an id-addressed group with a designated host, a
//! per-player readiness state machine, and an inactivity-based self-deletion
//! timer defused by ticket comparison.
//!
//! The room is a sequential state machine: the surrounding server feeds it
//! one mailbox message at a time and delivers the envelopes each transition
//! returns.  Leaving the room empty arms a deletion timer tagged with a fresh
//! ticket from a wrapping counter; only a firing that carries the currently
//! pending ticket terminates the room (see [`crate::counter`] for why a
//! defused ticket can never fire).

use vstd::prelude::*;
use vstd::pervasive::VecAdditionalExecFns;

use crate::connection::Player;
use crate::counter::{step_consistent, wrap_inc, CounterStep};
use crate::protocol::{
    seq_view, Envelope, EnvelopeV, FromPlayerMsg, OtherPlayer, OtherPlayerV, PlayerState, TimeSpan,
    ToPlayerMsg, ToPlayerMsgV,
};
use crate::rng::random_index;
use crate::typing_test::Seed;

verus! {

/// How long an empty room waits before it reports its own deletion.
pub const ROOM_INACTIVITY_DURATION_SECS: u64 = 60;

/// The countdown announced to everyone when the host starts the race.
pub const RACE_COUNTDOWN_SECS: u64 = 10;

/// One member of a room's roster.
#[derive(Debug)]
pub struct RoomPlayer {
    pub id: u32,
    pub username: String,
    pub state: PlayerState,
}

/// The view of a [`RoomPlayer`].
pub struct RoomPlayerV {
    pub id: u32,
    pub username: Seq<char>,
    pub state: PlayerState,
}

impl View for RoomPlayer {
    type V = RoomPlayerV;

    open spec fn view(&self) -> RoomPlayerV {
        RoomPlayerV { id: self.id, username: self.username@, state: self.state }
    }
}

/// A message a room-bound player listener hands to the room, mirroring the
/// frames a player can send plus the leave synthesized when their stream
/// ends.
#[derive(Debug)]
pub enum RoomMsg {
    Join { player: Player },
    Ready { player_id: u32 },
    NotReady { player_id: u32 },
    Start { player_id: u32 },
    Leave { player_id: u32 },
    Update { player_id: u32, progress: u32 },
    Finish { player_id: u32, duration: TimeSpan },
    Delete { ticket: u32 },
}

/// How a player listener turns one decoded inbound message into a room
/// message; when the player's stream ends, the listener hands the room a
/// `Leave` instead.
pub fn listener_event(player_id: u32, msg: FromPlayerMsg) -> (r: RoomMsg)
    ensures
        r == match msg {
            FromPlayerMsg::Ready => RoomMsg::Ready { player_id },
            FromPlayerMsg::NotReady => RoomMsg::NotReady { player_id },
            FromPlayerMsg::Start => RoomMsg::Start { player_id },
            FromPlayerMsg::Update { progress } => RoomMsg::Update { player_id, progress },
            FromPlayerMsg::Finish { duration } => RoomMsg::Finish { player_id, duration },
        },
{
    match msg {
        FromPlayerMsg::Ready => RoomMsg::Ready { player_id },
        FromPlayerMsg::NotReady => RoomMsg::NotReady { player_id },
        FromPlayerMsg::Start => RoomMsg::Start { player_id },
        FromPlayerMsg::Update { progress } => RoomMsg::Update { player_id, progress },
        FromPlayerMsg::Finish { duration } => RoomMsg::Finish { player_id, duration },
    }
}

/// One copy of a message to every listed member, in roster order.
pub open spec fn room_fanout(players: Seq<RoomPlayerV>, m: ToPlayerMsgV) -> Seq<
    EnvelopeV<ToPlayerMsgV>,
> {
    Seq::new(players.len(), |i: int| EnvelopeV { to: players[i].id, msg: m })
}

/// The index of the first member with the given id, or -1.
pub open spec fn index_of_id(players: Seq<RoomPlayerV>, id: u32) -> int
    decreases players.len(),
{
    if players.len() == 0 {
        -1
    } else if players[0].id == id {
        0
    } else {
        let rest = index_of_id(players.drop_first(), id);
        if rest == -1 {
            -1
        } else {
            1 + rest
        }
    }
}

/// What a joining player is told about the members already present.
pub open spec fn roster_snapshot(players: Seq<RoomPlayerV>) -> Seq<OtherPlayerV> {
    Seq::new(
        players.len(),
        |i: int| OtherPlayerV { username: players[i].username, state: players[i].state },
    )
}

/// Whether any member has entered the racing phase.
pub open spec fn any_racing(players: Seq<RoomPlayerV>) -> bool {
    exists|i: int|
        0 <= i < players.len() && ((#[trigger] players[i]).state == PlayerState::Racing
            || players[i].state == PlayerState::Finished)
}

/// The roster with one member's readiness changed.
pub open spec fn set_state_at(players: Seq<RoomPlayerV>, pos: int, st: PlayerState) -> Seq<
    RoomPlayerV,
> {
    players.update(
        pos,
        RoomPlayerV { id: players[pos].id, username: players[pos].username, state: st },
    )
}

/// The roster once the race starts: every ready member is racing, everyone
/// else keeps their state and may spectate.
pub open spec fn ready_to_racing(players: Seq<RoomPlayerV>) -> Seq<RoomPlayerV> {
    Seq::new(
        players.len(),
        |i: int| RoomPlayerV {
            id: players[i].id,
            username: players[i].username,
            state: if players[i].state == PlayerState::Ready {
                PlayerState::Racing
            } else {
                players[i].state
            },
        },
    )
}

proof fn lemma_index_of_id_found(players: Seq<RoomPlayerV>, id: u32, i: int)
    requires
        0 <= i < players.len(),
        players[i].id == id,
        forall|q: int| 0 <= q < i ==> players[q].id != id,
    ensures
        index_of_id(players, id) == i,
    decreases i,
{
    if i > 0 {
        assert(forall|q: int| 0 <= q < i - 1 ==> players.drop_first()[q].id != id);
        lemma_index_of_id_found(players.drop_first(), id, i - 1);
    }
}

proof fn lemma_index_of_id_absent(players: Seq<RoomPlayerV>, id: u32)
    requires
        forall|q: int| 0 <= q < players.len() ==> players[q].id != id,
    ensures
        index_of_id(players, id) == -1,
    decreases players.len(),
{
    if players.len() > 0 {
        assert(forall|q: int|
            0 <= q < players.drop_first().len() ==> players.drop_first()[q].id != id);
        lemma_index_of_id_absent(players.drop_first(), id);
    }
}

/// Everything a leave asks the caller to do: deliver the notices and, if the
/// room just emptied, arm the deletion timer with the given ticket.
#[derive(Debug)]
pub struct LeaveEffects {
    pub sends: Vec<Envelope<ToPlayerMsg>>,
    pub arm_deletion: Option<u32>,
}

/// The abstract state of a room.
pub struct RoomV {
    pub room_id: u32,
    pub creator_id: u32,
    pub players: Seq<RoomPlayerV>,
    pub host_id: Option<u32>,
    pub delete_ticket: Option<u32>,
    pub next_ticket: u32,
}

/// A room's state.
#[derive(Debug)]
pub struct Room {
    room_id: u32,
    creator_id: u32,
    players: Vec<RoomPlayer>,
    host_id: Option<u32>,
    delete_ticket: Option<u32>,
    next_ticket: u32,
}

impl View for Room {
    type V = RoomV;

    closed spec fn view(&self) -> RoomV {
        RoomV {
            room_id: self.room_id,
            creator_id: self.creator_id,
            players: seq_view(self.players@),
            host_id: self.host_id,
            delete_ticket: self.delete_ticket,
            next_ticket: self.next_ticket,
        }
    }
}

impl Room {
    /// The room's invariant: a non-empty roster always has a host, and the
    /// host, when set, is a roster member.
    pub closed spec fn wf(&self) -> bool {
        &&& (self@.players.len() > 0 ==> self@.host_id is Some)
        &&& (self@.host_id matches Some(h) ==> exists|i: int|
            0 <= i < self@.players.len() && (#[trigger] self@.players[i]).id == h)
    }

    /// A fresh room, created by the manager on behalf of a creator.
    pub fn new(room_id: u32, creator_id: u32) -> (r: Room)
        ensures
            r.wf(),
            r@.room_id == room_id,
            r@.creator_id == creator_id,
            r@.players == Seq::<RoomPlayerV>::empty(),
            r@.host_id is None,
            r@.delete_ticket is None,
            r@.next_ticket == 0,
    {
        let r = Room {
            room_id,
            creator_id,
            players: Vec::new(),
            host_id: None,
            delete_ticket: None,
            next_ticket: 0,
        };
        proof {
            assert(r@.players =~= Seq::<RoomPlayerV>::empty());
        }
        r
    }

    /// The position of the first member with this id, if any.
    fn find_index(&self, id: u32) -> (r: Option<usize>)
        ensures
            match r {
                Some(pos) => pos < self@.players.len() && pos == index_of_id(self@.players, id),
                None => index_of_id(self@.players, id) == -1,
            },
    {
        let n = self.players.len();
        let mut i: usize = 0;
        while i < n
            invariant
                n == self.players@.len(),
                i <= n,
                forall|q: int| 0 <= q < i ==> seq_view(self.players@)[q].id != id,
            decreases n - i,
        {
            if self.players[i].id == id {
                proof {
                    lemma_index_of_id_found(seq_view(self.players@), id, i as int);
                }
                return Some(i);
            }
            i += 1;
        }
        proof {
            lemma_index_of_id_absent(seq_view(self.players@), id);
        }
        None
    }

    /// One copy of the message to every member.
    fn fanout_all(&self, msg: &ToPlayerMsg) -> (sends: Vec<Envelope<ToPlayerMsg>>)
        ensures
            seq_view(sends@) == room_fanout(self@.players, msg@),
    {
        let ghost players_v = seq_view(self.players@);
        let ghost target = room_fanout(players_v, msg@);
        let mut sends: Vec<Envelope<ToPlayerMsg>> = Vec::new();
        let n = self.players.len();
        proof {
            assert(seq_view(sends@) =~= target.take(0));
        }
        let mut i: usize = 0;
        while i < n
            invariant
                n == self.players@.len(),
                i <= n,
                players_v == seq_view(self.players@),
                target == room_fanout(players_v, msg@),
                seq_view(sends@) == target.take(i as int),
            decreases n - i,
        {
            let ghost built = seq_view(sends@);
            sends.push(Envelope { to: self.players[i].id, msg: copy_to_player_msg(msg) });
            proof {
                let env_v = EnvelopeV { to: players_v[i as int].id, msg: msg@ };
                assert(seq_view(sends@).len() == built.len() + 1);
                assert(seq_view(sends@)[built.len() as int] == env_v);
                assert(forall|q: int| 0 <= q < built.len() ==> seq_view(sends@)[q] == built[q]);
                assert(seq_view(sends@) =~= built.push(env_v));
                assert(target[i as int] == env_v);
                assert(target.take(i + 1) =~= target.take(i as int).push(env_v));
            }
            i += 1;
        }
        proof {
            assert(target.take(n as int) =~= target);
        }
        sends
    }

    /// One copy of the message to every member except the one at `pos`.
    fn fanout_except(&self, pos: usize, msg: &ToPlayerMsg) -> (sends: Vec<Envelope<ToPlayerMsg>>)
        requires
            pos < self@.players.len(),
        ensures
            seq_view(sends@) == room_fanout(self@.players.remove(pos as int), msg@),
    {
        let ghost players_v = seq_view(self.players@);
        let ghost target = room_fanout(players_v.remove(pos as int), msg@);
        proof {
            players_v.remove_ensures(pos as int);
        }
        let mut sends: Vec<Envelope<ToPlayerMsg>> = Vec::new();
        let n = self.players.len();
        proof {
            assert(seq_view(sends@) =~= target.take(0));
        }
        let mut i: usize = 0;
        while i < n
            invariant
                n == self.players@.len(),
                i <= n,
                pos < n,
                players_v == seq_view(self.players@),
                target == room_fanout(players_v.remove(pos as int), msg@),
                forall|q: int|
                    0 <= q < players_v.remove(pos as int).len() ==> players_v.remove(pos as int)[q]
                        == (if q < pos {
                        players_v[q]
                    } else {
                        players_v[q + 1]
                    }),
                seq_view(sends@) == target.take(
                    if i <= pos {
                        i as int
                    } else {
                        i - 1
                    },
                ),
            decreases n - i,
        {
            if i != pos {
                let ghost c: int = if i <= pos {
                    i as int
                } else {
                    i - 1
                };
                let ghost built = seq_view(sends@);
                sends.push(Envelope { to: self.players[i].id, msg: copy_to_player_msg(msg) });
                proof {
                    let env_v = EnvelopeV { to: players_v[i as int].id, msg: msg@ };
                    assert(players_v.remove(pos as int)[c] == players_v[i as int]);
                    assert(seq_view(sends@).len() == built.len() + 1);
                    assert(seq_view(sends@)[built.len() as int] == env_v);
                    assert(forall|q: int| 0 <= q < built.len() ==> seq_view(sends@)[q] == built[q]);
                    assert(seq_view(sends@) =~= built.push(env_v));
                    assert(target[c] == env_v);
                    assert(target.take(c + 1) =~= target.take(c).push(env_v));
                }
            }
            i += 1;
        }
        proof {
            assert(target.take(n - 1) =~= target);
        }
        sends
    }
}

/// Whether any member is eligible to inherit the host role.
pub open spec fn any_eligible(players: Seq<RoomPlayerV>) -> bool {
    exists|i: int| 0 <= i < players.len() && (#[trigger] players[i]).state != PlayerState::NotReady
}

/// The name announced as host to a joining player: the joiner's own name if
/// the join makes them host, else the sitting host's.
pub open spec fn join_host_name(pre: RoomV, joiner: crate::connection::PlayerV) -> Seq<char> {
    if pre.players.len() == 0 || joiner.id == pre.creator_id {
        joiner.username
    } else {
        match pre.host_id {
            Some(h) => pre.players[index_of_id(pre.players, h)].username,
            None => joiner.username,
        }
    }
}

proof fn lemma_index_of_id_bounds(players: Seq<RoomPlayerV>, id: u32)
    ensures
        -1 <= index_of_id(players, id) < players.len(),
    decreases players.len(),
{
    if players.len() > 0 && players[0].id != id {
        lemma_index_of_id_bounds(players.drop_first(), id);
    }
}

proof fn lemma_index_of_id_at(players: Seq<RoomPlayerV>, id: u32)
    requires
        index_of_id(players, id) >= 0,
    ensures
        index_of_id(players, id) < players.len(),
        players[index_of_id(players, id)].id == id,
    decreases players.len(),
{
    if players.len() > 0 && players[0].id != id {
        lemma_index_of_id_at(players.drop_first(), id);
    }
}

proof fn lemma_index_of_id_none(players: Seq<RoomPlayerV>, id: u32)
    requires
        index_of_id(players, id) == -1,
    ensures
        forall|q: int| 0 <= q < players.len() ==> (#[trigger] players[q]).id != id,
    decreases players.len(),
{
    if players.len() > 0 {
        lemma_index_of_id_bounds(players.drop_first(), id);
        lemma_index_of_id_none(players.drop_first(), id);
        assert forall|q: int| 0 <= q < players.len() implies (#[trigger] players[q]).id != id by {
            if q > 0 {
                assert(players.drop_first()[q - 1] == players[q]);
            }
        }
    }
}

impl Room {
    /// The roster as it would be described to a joining player: each
    /// member's username and readiness, in roster order.
    pub fn snapshot_members(&self) -> (snap: Vec<OtherPlayer>)
        ensures
            seq_view(snap@) == roster_snapshot(self@.players),
    {
        let ghost players_v = seq_view(self.players@);
        let ghost target = roster_snapshot(players_v);
        let mut snap: Vec<OtherPlayer> = Vec::new();
        let n = self.players.len();
        proof {
            assert(seq_view(snap@) =~= target.take(0));
        }
        let mut i: usize = 0;
        while i < n
            invariant
                n == self.players@.len(),
                i <= n,
                players_v == seq_view(self.players@),
                target == roster_snapshot(players_v),
                seq_view(snap@) == target.take(i as int),
            decreases n - i,
        {
            let ghost built = seq_view(snap@);
            snap.push(
                OtherPlayer { username: self.players[i].username.clone(), state: self.players[i].state },
            );
            proof {
                let e = OtherPlayerV {
                    username: players_v[i as int].username,
                    state: players_v[i as int].state,
                };
                assert(seq_view(snap@).len() == built.len() + 1);
                assert(seq_view(snap@)[built.len() as int] == e);
                assert(forall|q: int| 0 <= q < built.len() ==> seq_view(snap@)[q] == built[q]);
                assert(seq_view(snap@) =~= built.push(e));
                assert(target[i as int] == e);
                assert(target.take(i + 1) =~= target.take(i as int).push(e));
            }
            i += 1;
        }
        proof {
            assert(target.take(n as int) =~= target);
        }
        snap
    }

    /// Whether any member is racing or finished.
    fn any_racing_exec(&self) -> (b: bool)
        ensures
            b == any_racing(self@.players),
    {
        let n = self.players.len();
        let mut i: usize = 0;
        while i < n
            invariant
                n == self.players@.len(),
                i <= n,
                forall|q: int|
                    0 <= q < i ==> (#[trigger] seq_view(self.players@)[q]).state
                        != PlayerState::Racing && seq_view(self.players@)[q].state
                        != PlayerState::Finished,
            decreases n - i,
        {
            let st = self.players[i].state;
            if st == PlayerState::Racing || st == PlayerState::Finished {
                proof {
                    assert(0 <= i < seq_view(self.players@).len() && (seq_view(self.players@)[i as int].state
                        == PlayerState::Racing || seq_view(self.players@)[i as int].state
                        == PlayerState::Finished));
                }
                return true;
            }
            i += 1;
        }
        false
    }

    /// Admits a player.  The very first joiner, or the creator whenever they
    /// (re)join, becomes host.  The joiner is sent a snapshot of the other
    /// members and the host's name; everyone already present is told who
    /// joined and whether the joiner is now host.  A fresh join defuses any
    /// pending deletion timer.
    pub fn join(&mut self, player: Player) -> (sends: Vec<Envelope<ToPlayerMsg>>)
        requires
            old(self).wf(),
        ensures
            final(self).wf(),
            final(self)@.room_id == old(self)@.room_id,
            final(self)@.creator_id == old(self)@.creator_id,
            final(self)@.next_ticket == old(self)@.next_ticket,
            final(self)@.delete_ticket is None,
            final(self)@.players == old(self)@.players.push(
                RoomPlayerV {
                    id: player@.id,
                    username: player@.username,
                    state: PlayerState::NotReady,
                },
            ),
            final(self)@.host_id == (if old(self)@.players.len() == 0 || player@.id == old(
                self,
            )@.creator_id {
                Some(player@.id)
            } else {
                old(self)@.host_id
            }),
            ticket_evolution(old(self)@, final(self)@, None),
            seq_view(sends@) == seq![
                EnvelopeV {
                    to: player@.id,
                    msg: ToPlayerMsgV::Init {
                        other_players: roster_snapshot(old(self)@.players),
                        host: join_host_name(old(self)@, player@),
                    },
                },
            ] + room_fanout(
                old(self)@.players,
                ToPlayerMsgV::Join {
                    joining_player: player@.username,
                    is_host: final(self)@.host_id == Some(player@.id),
                },
            ),
    {
        let ghost pre = self@;
        let ghost joiner = player@;
        let assigned = self.players.is_empty() || player.id == self.creator_id;
        let (new_host_id, host_username): (u32, String) = if assigned {
            (player.id, player.username.clone())
        } else {
            let h = self.host_id.unwrap();
            let pos = match self.find_index(h) {
                Some(pos) => pos,
                None => {
                    proof {
                        lemma_index_of_id_none(seq_view(self.players@), h);
                        assert(false);
                    }
                    0
                },
            };
            (h, self.players[pos].username.clone())
        };
        let is_host = new_host_id == player.id;

        let snapshot = self.snapshot_members();
        let init_msg = ToPlayerMsg::Init { other_players: snapshot, host: host_username };
        let join_msg = ToPlayerMsg::Join { joining_player: player.username.clone(), is_host };
        let ghost join_msg_v = join_msg@;

        let mut sends: Vec<Envelope<ToPlayerMsg>> = Vec::new();
        let ghost init_env_v = EnvelopeV { to: player.id, msg: init_msg@ };
        sends.push(Envelope { to: player.id, msg: init_msg });
        let mut notices = self.fanout_all(&join_msg);
        let ghost notices_v = seq_view(notices@);
        sends.append(&mut notices);
        proof {
            assert(seq_view(sends@) =~= seq![init_env_v] + notices_v);
        }

        self.host_id = Some(new_host_id);
        self.players.push(
            RoomPlayer { id: player.id, username: player.username, state: PlayerState::NotReady },
        );
        self.delete_ticket = None;
        proof {
            assert(seq_view(self.players@) =~= pre.players.push(
                RoomPlayerV {
                    id: joiner.id,
                    username: joiner.username,
                    state: PlayerState::NotReady,
                },
            ));
            let post = seq_view(self.players@);
            if assigned {
                assert(post[pre.players.len() as int].id == new_host_id);
            } else {
                let k = choose|i: int|
                    0 <= i < pre.players.len() && (#[trigger] pre.players[i]).id == new_host_id;
                assert(post[k].id == new_host_id);
            }
        }
        sends
    }

    /// Handles a readiness request, for becoming ready and for withdrawing.
    /// A sender who is not a member is ignored; once any member is racing or
    /// finished, the request is rejected with an error notice to the sender
    /// alone and no member's state changes; otherwise the sender's state is
    /// set and every other member is notified.
    pub fn set_readiness(&mut self, player_id: u32, ready: bool) -> (sends: Vec<
        Envelope<ToPlayerMsg>,
    >)
        requires
            old(self).wf(),
        ensures
            final(self).wf(),
            final(self)@.room_id == old(self)@.room_id,
            final(self)@.creator_id == old(self)@.creator_id,
            final(self)@.host_id == old(self)@.host_id,
            final(self)@.delete_ticket == old(self)@.delete_ticket,
            final(self)@.next_ticket == old(self)@.next_ticket,
            ticket_evolution(old(self)@, final(self)@, None),
            ({
                let pre = old(self)@;
                let pos = index_of_id(pre.players, player_id);
                if pos == -1 {
                    final(self)@.players == pre.players && seq_view(sends@) == Seq::<
                        EnvelopeV<ToPlayerMsgV>,
                    >::empty()
                } else if any_racing(pre.players) {
                    final(self)@.players == pre.players && seq_view(sends@) == seq![
                        EnvelopeV {
                            to: player_id,
                            msg: ToPlayerMsgV::Error {
                                title: "Too late!"@,
                                body:
                                    "The racing phase has begun, you cannot join or leave the race now"@,
                            },
                        },
                    ]
                } else {
                    let st = if ready {
                        PlayerState::Ready
                    } else {
                        PlayerState::NotReady
                    };
                    let notice = if ready {
                        ToPlayerMsgV::Ready { ready_player: pre.players[pos].username }
                    } else {
                        ToPlayerMsgV::NotReady { not_ready_player: pre.players[pos].username }
                    };
                    final(self)@.players == set_state_at(pre.players, pos, st) && seq_view(sends@)
                        == room_fanout(final(self)@.players.remove(pos), notice)
                }
            }),
    {
        let ghost pre = self@;
        let pos = match self.find_index(player_id) {
            Some(pos) => pos,
            None => {
                let sends: Vec<Envelope<ToPlayerMsg>> = Vec::new();
                proof {
                    assert(seq_view(sends@) =~= Seq::<EnvelopeV<ToPlayerMsgV>>::empty());
                }
                return sends;
            },
        };
        proof {
            lemma_index_of_id_at(seq_view(self.players@), player_id);
        }
        if self.any_racing_exec() {
            let err = ToPlayerMsg::Error {
                title: "Too late!",
                body: "The racing phase has begun, you cannot join or leave the race now",
            };
            let ghost err_v = err@;
            let mut sends: Vec<Envelope<ToPlayerMsg>> = Vec::new();
            sends.push(Envelope { to: player_id, msg: err });
            proof {
                assert(seq_view(sends@) =~= seq![EnvelopeV { to: player_id, msg: err_v }]);
            }
            return sends;
        }
        let st = if ready {
            PlayerState::Ready
        } else {
            PlayerState::NotReady
        };
        let username = self.players[pos].username.clone();
        self.players.set(
            pos,
            RoomPlayer { id: player_id, username: self.players[pos].username.clone(), state: st },
        );
        proof {
            assert(seq_view(self.players@) =~= set_state_at(pre.players, pos as int, st));
            lemma_host_witness_preserved(pre, self@);
        }
        let notice = if ready {
            ToPlayerMsg::Ready { ready_player: username }
        } else {
            ToPlayerMsg::NotReady { not_ready_player: username }
        };
        let sends = self.fanout_except(pos, &notice);
        sends
    }

    /// Handles a start request.  A sender who is not a member is ignored; a
    /// sender who is not the host is rejected with an error notice and no
    /// member's state changes; the host's start announces the same freshly
    /// drawn seed and a fixed countdown to everyone, and every ready member
    /// transitions to racing, while members still not ready stay behind to
    /// spectate.
    pub fn start(&mut self, player_id: u32) -> (sends: Vec<Envelope<ToPlayerMsg>>)
        requires
            old(self).wf(),
        ensures
            final(self).wf(),
            final(self)@.room_id == old(self)@.room_id,
            final(self)@.creator_id == old(self)@.creator_id,
            final(self)@.host_id == old(self)@.host_id,
            final(self)@.delete_ticket == old(self)@.delete_ticket,
            final(self)@.next_ticket == old(self)@.next_ticket,
            ticket_evolution(old(self)@, final(self)@, None),
            ({
                let pre = old(self)@;
                let pos = index_of_id(pre.players, player_id);
                if pos == -1 {
                    final(self)@.players == pre.players && seq_view(sends@) == Seq::<
                        EnvelopeV<ToPlayerMsgV>,
                    >::empty()
                } else if pre.host_id != Some(player_id) {
                    final(self)@.players == pre.players && seq_view(sends@) == seq![
                        EnvelopeV {
                            to: player_id,
                            msg: ToPlayerMsgV::Error {
                                title: "You aren't the host!"@,
                                body: "How the hell did you manage to send this message?"@,
                            },
                        },
                    ]
                } else {
                    final(self)@.players == ready_to_racing(pre.players) && exists|seed: Seq<i32>|
                        seq_view(sends@) == room_fanout(
                            pre.players,
                            ToPlayerMsgV::Prepare {
                                time_until_race_start: TimeSpan {
                                    secs: RACE_COUNTDOWN_SECS,
                                    nanos: 0,
                                },
                                seed,
                            },
                        )
                }
            }),
    {
        let ghost pre = self@;
        let pos = match self.find_index(player_id) {
            Some(pos) => pos,
            None => {
                let sends: Vec<Envelope<ToPlayerMsg>> = Vec::new();
                proof {
                    assert(seq_view(sends@) =~= Seq::<EnvelopeV<ToPlayerMsgV>>::empty());
                }
                return sends;
            },
        };
        let is_host = match self.host_id {
            Some(h) => h == player_id,
            None => false,
        };
        if !is_host {
            let err = ToPlayerMsg::Error {
                title: "You aren't the host!",
                body: "How the hell did you manage to send this message?",
            };
            let ghost err_v = err@;
            let mut sends: Vec<Envelope<ToPlayerMsg>> = Vec::new();
            sends.push(Envelope { to: player_id, msg: err });
            proof {
                assert(seq_view(sends@) =~= seq![EnvelopeV { to: player_id, msg: err_v }]);
            }
            return sends;
        }

        let seed: Seed = rand::random();
        let prepare = ToPlayerMsg::Prepare {
            time_until_race_start: TimeSpan { secs: RACE_COUNTDOWN_SECS, nanos: 0 },
            seed,
        };
        let ghost prepare_v = prepare@;
        let sends = self.fanout_all(&prepare);

        let ghost pre_players = seq_view(self.players@);
        let n = self.players.len();
        let mut i: usize = 0;
        while i < n
            invariant
                n == self.players@.len(),
                n == pre_players.len(),
                i <= n,
                self.room_id == old(self).room_id,
                self.creator_id == old(self).creator_id,
                self.host_id == old(self).host_id,
                self.delete_ticket == old(self).delete_ticket,
                self.next_ticket == old(self).next_ticket,
                forall|q: int|
                    0 <= q < i ==> seq_view(self.players@)[q] == ready_to_racing(pre_players)[q],
                forall|q: int| i <= q < n ==> seq_view(self.players@)[q] == pre_players[q],
            decreases n - i,
        {
            let st = self.players[i].state;
            proof {
                assert(seq_view(self.players@)[i as int] == pre_players[i as int]);
                assert(pre_players[i as int] == RoomPlayerV {
                    id: pre_players[i as int].id,
                    username: pre_players[i as int].username,
                    state: pre_players[i as int].state,
                });
            }
            if st == PlayerState::Ready {
                let id = self.players[i].id;
                let username = self.players[i].username.clone();
                let ghost before = seq_view(self.players@);
                self.players.set(i, RoomPlayer { id, username, state: PlayerState::Racing });
                proof {
                    assert(forall|q: int|
                        0 <= q < n && q != i ==> seq_view(self.players@)[q] == before[q]);
                    assert(seq_view(self.players@)[i as int] == RoomPlayerV {
                        id: pre_players[i as int].id,
                        username: pre_players[i as int].username,
                        state: PlayerState::Racing,
                    });
                    assert(seq_view(self.players@)[i as int] == ready_to_racing(pre_players)[i as int]);
                }
            } else {
                proof {
                    assert(seq_view(self.players@)[i as int] == ready_to_racing(pre_players)[i as int]);
                }
            }
            i += 1;
        }
        proof {
            assert(seq_view(self.players@) =~= ready_to_racing(pre_players));
            lemma_host_witness_preserved(pre, self@);
        }
        sends
    }

    /// Relays a progress update to every member but the sender; a sender who
    /// is not a member is ignored, and nothing else changes.
    pub fn update(&mut self, player_id: u32, progress: u32) -> (sends: Vec<Envelope<ToPlayerMsg>>)
        requires
            old(self).wf(),
        ensures
            *final(self) == *old(self),
            final(self).wf(),
            ({
                let pre = old(self)@;
                let pos = index_of_id(pre.players, player_id);
                if pos == -1 {
                    seq_view(sends@) == Seq::<EnvelopeV<ToPlayerMsgV>>::empty()
                } else {
                    seq_view(sends@) == room_fanout(
                        pre.players.remove(pos),
                        ToPlayerMsgV::Update { player: pre.players[pos].username, progress },
                    )
                }
            }),
    {
        let pos = match self.find_index(player_id) {
            Some(pos) => pos,
            None => {
                let sends: Vec<Envelope<ToPlayerMsg>> = Vec::new();
                proof {
                    assert(seq_view(sends@) =~= Seq::<EnvelopeV<ToPlayerMsgV>>::empty());
                }
                return sends;
            },
        };
        let msg = ToPlayerMsg::Update { player: self.players[pos].username.clone(), progress };
        self.fanout_except(pos, &msg)
    }

    /// Marks the sender finished and relays the result to every other
    /// member; a sender who is not a member is ignored.
    pub fn finish(&mut self, player_id: u32, duration: TimeSpan) -> (sends: Vec<
        Envelope<ToPlayerMsg>,
    >)
        requires
            old(self).wf(),
        ensures
            final(self).wf(),
            final(self)@.room_id == old(self)@.room_id,
            final(self)@.creator_id == old(self)@.creator_id,
            final(self)@.host_id == old(self)@.host_id,
            final(self)@.delete_ticket == old(self)@.delete_ticket,
            final(self)@.next_ticket == old(self)@.next_ticket,
            ticket_evolution(old(self)@, final(self)@, None),
            ({
                let pre = old(self)@;
                let pos = index_of_id(pre.players, player_id);
                if pos == -1 {
                    final(self)@.players == pre.players && seq_view(sends@) == Seq::<
                        EnvelopeV<ToPlayerMsgV>,
                    >::empty()
                } else {
                    final(self)@.players == set_state_at(pre.players, pos, PlayerState::Finished)
                        && seq_view(sends@) == room_fanout(
                        final(self)@.players.remove(pos),
                        ToPlayerMsgV::Finish { player: pre.players[pos].username, duration },
                    )
                }
            }),
    {
        let ghost pre = self@;
        let pos = match self.find_index(player_id) {
            Some(pos) => pos,
            None => {
                let sends: Vec<Envelope<ToPlayerMsg>> = Vec::new();
                proof {
                    assert(seq_view(sends@) =~= Seq::<EnvelopeV<ToPlayerMsgV>>::empty());
                }
                return sends;
            },
        };
        proof {
            lemma_index_of_id_at(seq_view(self.players@), player_id);
        }
        let username = self.players[pos].username.clone();
        self.players.set(
            pos,
            RoomPlayer {
                id: player_id,
                username: self.players[pos].username.clone(),
                state: PlayerState::Finished,
            },
        );
        proof {
            assert(seq_view(self.players@) =~= set_state_at(
                pre.players,
                pos as int,
                PlayerState::Finished,
            ));
            lemma_host_witness_preserved(pre, self@);
        }
        let msg = ToPlayerMsg::Finish { player: username, duration };
        self.fanout_except(pos, &msg)
    }

    /// Removes a member.  The remaining members are told who left; if the
    /// host left, a new host is chosen, preferring members who are not
    /// `NotReady`, and announced in the same notice.  When the last member
    /// leaves, a deletion timer is armed instead, tagged with a fresh ticket
    /// from the room's counter.
    pub fn leave(&mut self, player_id: u32) -> (r: LeaveEffects)
        requires
            old(self).wf(),
        ensures
            final(self).wf(),
            final(self)@.room_id == old(self)@.room_id,
            final(self)@.creator_id == old(self)@.creator_id,
            ticket_evolution(old(self)@, final(self)@, r.arm_deletion),
            ({
                let pre = old(self)@;
                let pos = index_of_id(pre.players, player_id);
                if pos == -1 {
                    final(self)@ == pre && seq_view(r.sends@) == Seq::<
                        EnvelopeV<ToPlayerMsgV>,
                    >::empty() && r.arm_deletion is None
                } else {
                    let post_players = pre.players.remove(pos);
                    final(self)@.players == post_players && (if post_players.len() == 0 {
                        &&& final(self)@.host_id is None
                        &&& final(self)@.delete_ticket == Some(pre.next_ticket)
                        &&& final(self)@.next_ticket == wrap_inc(pre.next_ticket)
                        &&& r.arm_deletion == Some(pre.next_ticket)
                        &&& seq_view(r.sends@) == Seq::<EnvelopeV<ToPlayerMsgV>>::empty()
                    } else {
                        &&& final(self)@.delete_ticket == pre.delete_ticket
                        &&& final(self)@.next_ticket == pre.next_ticket
                        &&& r.arm_deletion is None
                        &&& (if pre.host_id == Some(player_id) {
                            exists|w: int|
                                0 <= w < post_players.len() && final(self)@.host_id == Some(
                                    (#[trigger] post_players[w]).id,
                                ) && (any_eligible(post_players) ==> post_players[w].state
                                    != PlayerState::NotReady) && seq_view(r.sends@) == room_fanout(
                                    post_players,
                                    ToPlayerMsgV::Leave {
                                        leaving_player: pre.players[pos].username,
                                        new_host: Some(post_players[w].username),
                                    },
                                )
                        } else {
                            final(self)@.host_id == pre.host_id && seq_view(r.sends@)
                                == room_fanout(
                                post_players,
                                ToPlayerMsgV::Leave {
                                    leaving_player: pre.players[pos].username,
                                    new_host: None,
                                },
                            )
                        })
                    })
                }
            }),
    {
        let ghost pre = self@;
        let pos = match self.find_index(player_id) {
            Some(pos) => pos,
            None => {
                let sends: Vec<Envelope<ToPlayerMsg>> = Vec::new();
                proof {
                    assert(seq_view(sends@) =~= Seq::<EnvelopeV<ToPlayerMsgV>>::empty());
                }
                return LeaveEffects { sends, arm_deletion: None };
            },
        };
        proof {
            lemma_index_of_id_at(seq_view(self.players@), player_id);
            pre.players.remove_ensures(pos as int);
        }
        let removed = self.players.remove(pos);
        proof {
            assert(seq_view(self.players@) =~= pre.players.remove(pos as int));
        }

        let host = self.host_id.unwrap();
        if host == player_id {
            self.host_id = None;
        }

        if self.players.is_empty() {
            proof {
                // the sole member was the host, so the host slot was cleared
                let k = choose|i: int|
                    0 <= i < pre.players.len() && (#[trigger] pre.players[i]).id == host;
                assert(k == pos);
            }
            let ticket = self.next_ticket;
            self.delete_ticket = Some(ticket);
            self.next_ticket = self.next_ticket.wrapping_add(1);
            let sends: Vec<Envelope<ToPlayerMsg>> = Vec::new();
            proof {
                assert(seq_view(sends@) =~= Seq::<EnvelopeV<ToPlayerMsgV>>::empty());
            }
            return LeaveEffects { sends, arm_deletion: Some(ticket) };
        }

        let ghost post_players = seq_view(self.players@);
        let new_host_idx: Option<usize> = if host == player_id {
            let n = self.players.len();
            let mut eligible: Vec<usize> = Vec::new();
            let mut i: usize = 0;
            while i < n
                invariant
                    n == self.players@.len(),
                    i <= n,
                    post_players == seq_view(self.players@),
                    forall|e: int|
                        0 <= e < eligible@.len() ==> (#[trigger] eligible@[e]) < n && post_players[
                            eligible@[e] as int
                        ].state != PlayerState::NotReady,
                    eligible@.len() == 0 ==> forall|q: int|
                        0 <= q < i ==> (#[trigger] post_players[q]).state == PlayerState::NotReady,
                decreases n - i,
            {
                if self.players[i].state != PlayerState::NotReady {
                    eligible.push(i);
                }
                i += 1;
            }
            let idx = if eligible.len() > 0 {
                let k = random_index(eligible.len());
                eligible[k]
            } else {
                proof {
                    assert(forall|q: int|
                        0 <= q < post_players.len() ==> (#[trigger] post_players[q]).state
                            == PlayerState::NotReady);
                    assert(!any_eligible(post_players));
                }
                random_index(self.players.len())
            };
            self.host_id = Some(self.players[idx].id);
            Some(idx)
        } else {
            None
        };
        let new_host_name: Option<String> = match new_host_idx {
            Some(idx) => Some(self.players[idx].username.clone()),
            None => None,
        };

        let leave_msg = ToPlayerMsg::Leave { leaving_player: removed.username, new_host: new_host_name };
        let ghost leave_msg_v = leave_msg@;
        let sends = self.fanout_all(&leave_msg);
        proof {
            match new_host_idx {
                Some(idx) => {
                    assert(0 <= idx < post_players.len());
                    assert(self@.host_id == Some(post_players[idx as int].id));
                    assert(any_eligible(post_players) ==> post_players[idx as int].state
                        != PlayerState::NotReady);
                },
                None => {
                    // the sitting host is still a member after the removal
                    let k = choose|i: int|
                        0 <= i < pre.players.len() && (#[trigger] pre.players[i]).id == host;
                    if k < pos {
                        assert(post_players[k].id == host);
                    } else {
                        assert(post_players[k - 1].id == host);
                    }
                },
            }
        }
        LeaveEffects { sends, arm_deletion: None }
    }

    /// Handles a deletion-timer firing.  Only the currently pending ticket
    /// terminates the room, in which case the room reports its own id for
    /// the manager to reclaim, exactly once: the ticket is consumed, so a
    /// repeated firing is stale.  Any other ticket is a defused or
    /// superseded timer and is ignored.
    pub fn delete(&mut self, ticket: u32) -> (r: Option<u32>)
        requires
            old(self).wf(),
        ensures
            final(self).wf(),
            final(self)@.room_id == old(self)@.room_id,
            final(self)@.creator_id == old(self)@.creator_id,
            final(self)@.players == old(self)@.players,
            final(self)@.host_id == old(self)@.host_id,
            final(self)@.next_ticket == old(self)@.next_ticket,
            ticket_evolution(old(self)@, final(self)@, None),
            old(self)@.delete_ticket == Some(ticket) ==> r == Some(old(self)@.room_id)
                && final(self)@.delete_ticket is None,
            old(self)@.delete_ticket != Some(ticket) ==> r is None && final(self)@.delete_ticket
                == old(self)@.delete_ticket,
    {
        let matches_ticket = match self.delete_ticket {
            Some(t) => t == ticket,
            None => false,
        };
        if matches_ticket {
            self.delete_ticket = None;
            Some(self.room_id)
        } else {
            None
        }
    }
}

/// What every room transition guarantees about the deletion-ticket slot and
/// its counter: the counter behaves as a [`CounterStep`], and the pending
/// slot only ever takes a ticket the same step issued — every other
/// transition leaves it alone or clears it.  Each of the room's methods
/// ensures exactly this shape.
pub open spec fn ticket_evolution(pre: RoomV, post: RoomV, issued: Option<u32>) -> bool {
    &&& step_consistent(CounterStep { pre: pre.next_ticket, post: post.next_ticket, issued })
    &&& match issued {
        Some(t) => post.delete_ticket == Some(t),
        None => post.delete_ticket == pre.delete_ticket || post.delete_ticket is None,
    }
}

/// A pending deletion ticket has a provenance: along any chain of room
/// transitions it was either already pending at the start of the chain or
/// was issued by one of its steps.  Together with
/// [`crate::counter::lemma_issued_distinct`] this is why a ticket defused by
/// a join can never terminate the room: once cleared it is no longer
/// pending, and every ticket armed afterwards is a fresh issue of the
/// counter, distinct from the stale one until the counter wraps.
pub proof fn lemma_pending_ticket_provenance(
    states: Seq<RoomV>,
    issues: Seq<Option<u32>>,
    k: int,
    t: u32,
)
    requires
        states.len() == issues.len() + 1,
        forall|q: int|
            0 <= q < issues.len() ==> ticket_evolution(states[q], states[q + 1], #[trigger] issues[q]),
        0 <= k < states.len(),
        states[k].delete_ticket == Some(t),
    ensures
        states[0].delete_ticket == Some(t) || exists|j: int| 0 <= j < k && issues[j] == Some(t),
    decreases k,
{
    if k > 0 {
        assert(ticket_evolution(states[k - 1], states[(k - 1) + 1], issues[k - 1]));
        match issues[k - 1] {
            Some(x) => {
                assert(issues[k - 1] == Some(t));
            },
            None => {
                assert(states[k - 1].delete_ticket == Some(t));
                lemma_pending_ticket_provenance(states, issues, k - 1, t);
                if !(states[0].delete_ticket == Some(t)) {
                    let j = choose|j: int| 0 <= j < k - 1 && issues[j] == Some(t);
                    assert(0 <= j < k && issues[j] == Some(t));
                }
            },
        }
    }
}

/// Changing one member's readiness, or nothing at all, keeps the host a
/// member: the roster's ids are untouched.
proof fn lemma_host_witness_preserved(pre: RoomV, post: RoomV)
    requires
        pre.host_id matches Some(h) ==> exists|i: int|
            0 <= i < pre.players.len() && (#[trigger] pre.players[i]).id == h,
        post.host_id == pre.host_id,
        post.players.len() == pre.players.len(),
        forall|i: int|
            0 <= i < pre.players.len() ==> (#[trigger] post.players[i]).id == pre.players[i].id,
    ensures
        post.host_id matches Some(h) ==> exists|i: int|
            0 <= i < post.players.len() && (#[trigger] post.players[i]).id == h,
{
    match pre.host_id {
        Some(h) => {
            let k = choose|i: int|
                0 <= i < pre.players.len() && (#[trigger] pre.players[i]).id == h;
            assert(post.players[k].id == h);
        },
        None => {},
    }
}

/// An exact copy of a member snapshot list.
fn copy_other_players(v: &Vec<OtherPlayer>) -> (c: Vec<OtherPlayer>)
    ensures
        seq_view(c@) == seq_view(v@),
{
    let mut c: Vec<OtherPlayer> = Vec::new();
    let n = v.len();
    let mut i: usize = 0;
    while i < n
        invariant
            n == v@.len(),
            i <= n,
            seq_view(c@) == seq_view(v@).take(i as int),
        decreases n - i,
    {
        let ghost built = seq_view(c@);
        c.push(OtherPlayer { username: v[i].username.clone(), state: v[i].state });
        proof {
            assert(seq_view(c@).len() == built.len() + 1);
            assert(seq_view(c@)[built.len() as int] == seq_view(v@)[i as int]);
            assert(forall|q: int| 0 <= q < built.len() ==> seq_view(c@)[q] == built[q]);
            assert(seq_view(c@) =~= seq_view(v@).take(i + 1));
        }
        i += 1;
    }
    proof {
        assert(seq_view(v@).take(n as int) =~= seq_view(v@));
    }
    c
}

/// An exact copy of a room message.
fn copy_to_player_msg(m: &ToPlayerMsg) -> (c: ToPlayerMsg)
    ensures
        c@ == m@,
{
    match m {
        ToPlayerMsg::Init { other_players, host } => {
            let c = ToPlayerMsg::Init {
                other_players: copy_other_players(other_players),
                host: host.clone(),
            };
            proof {
                assert(c@ == m@);
            }
            c
        },
        ToPlayerMsg::Join { joining_player, is_host } => ToPlayerMsg::Join {
            joining_player: joining_player.clone(),
            is_host: *is_host,
        },
        ToPlayerMsg::Leave { leaving_player, new_host } => ToPlayerMsg::Leave {
            leaving_player: leaving_player.clone(),
            new_host: match new_host {
                Some(h) => Some(h.clone()),
                None => None,
            },
        },
        ToPlayerMsg::Ready { ready_player } => ToPlayerMsg::Ready {
            ready_player: ready_player.clone(),
        },
        ToPlayerMsg::NotReady { not_ready_player } => ToPlayerMsg::NotReady {
            not_ready_player: not_ready_player.clone(),
        },
        ToPlayerMsg::Prepare { time_until_race_start, seed } => ToPlayerMsg::Prepare {
            time_until_race_start: *time_until_race_start,
            seed: *seed,
        },
        ToPlayerMsg::Update { player, progress } => ToPlayerMsg::Update {
            player: player.clone(),
            progress: *progress,
        },
        ToPlayerMsg::Finish { player, duration } => ToPlayerMsg::Finish {
            player: player.clone(),
            duration: *duration,
        },
        ToPlayerMsg::Error { title, body } => ToPlayerMsg::Error { title, body },
    }
}

} // verus!
