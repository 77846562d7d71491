//! The race session: the transient hub that relays progress events between
//! the players of one drained lobby.
//!
//! One listener per member turns read outcomes into race events
//! ([`listener_step`]); the merge loop feeds each event into
//! [`RaceSession::dispatch`]; failed deliveries are reconciled round by round
//! with [`RaceSession::disconnect_round`] until a round produces no new
//! failures; and [`RaceSession::finish`] flushes a leave notice for every
//! member still registered when the merge channel drains.

use vstd::prelude::*;

use crate::connection::{Player, PlayerV};
use crate::matchmaking::RaceStart;
use crate::protocol::{seq_view, DisconnectReason, Envelope, EnvelopeV, LobbyMsg, LobbyMsgV, RaceMsg, RaceMsgV};
use crate::typing_test::Seed;

verus! {

/// A listener gives up on a silent player after this long without a frame.
pub const INACTIVITY_DURATION_SECS: u64 = 20;

/// What a per-player listener observed in one read.
#[derive(Debug)]
pub enum ListenerInput {
    /// The inactivity window elapsed without a frame.
    Elapsed,
    /// The transport reported a read error.
    TransportError,
    /// A decoded race event arrived in a text frame.
    Event(RaceMsg),
    /// The peer closed the connection.
    Close,
    /// Any other frame arrived.
    OtherFrame,
}

/// What the listener does next.
#[derive(Debug, Clone, Copy, PartialEq, Eq, Structural)]
pub enum ListenerAction {
    /// Emit a synthetic timeout event for this player, then stop listening.
    EmitTimeout,
    /// Forward the event to the session; stop listening if `stop` is set.
    Forward { stop: bool },
    /// Stop listening without an event.
    Stop,
    /// Keep listening.
    Continue,
}

/// The listener decision: a lapsed inactivity window becomes a synthetic
/// timeout; a transport error or a close ends the listener silently; a
/// decoded event is forwarded, and a finish is the player's last word; any
/// other frame is ignored.  Whenever the listener stops, its caller reports
/// the player's leave to the matchmaking coordinator.
pub fn listener_step(input: &ListenerInput) -> (a: ListenerAction)
    ensures
        a == match input {
            ListenerInput::Elapsed => ListenerAction::EmitTimeout,
            ListenerInput::TransportError => ListenerAction::Stop,
            ListenerInput::Event(m) => ListenerAction::Forward {
                stop: m is Finish,
            },
            ListenerInput::Close => ListenerAction::Stop,
            ListenerInput::OtherFrame => ListenerAction::Continue,
        },
{
    match input {
        ListenerInput::Elapsed => ListenerAction::EmitTimeout,
        ListenerInput::TransportError => ListenerAction::Stop,
        ListenerInput::Event(m) => ListenerAction::Forward {
            stop: match m {
                RaceMsg::Finish { .. } => true,
                _ => false,
            },
        },
        ListenerInput::Close => ListenerAction::Stop,
        ListenerInput::OtherFrame => ListenerAction::Continue,
    }
}

/// The start announcement: every roster member receives the same seed.
pub open spec fn start_fanout(roster: Seq<PlayerV>, seed: Seq<i32>) -> Seq<EnvelopeV<LobbyMsgV>> {
    Seq::new(roster.len(), |i: int| EnvelopeV { to: roster[i].id, msg: LobbyMsgV::Start { seed } })
}

/// One message to every roster member.
pub open spec fn all_fanout(roster: Seq<PlayerV>, m: RaceMsgV) -> Seq<EnvelopeV<RaceMsgV>> {
    Seq::new(roster.len(), |i: int| EnvelopeV { to: roster[i].id, msg: m })
}

/// One message to every roster member except those named `sender`.
pub open spec fn others_fanout(roster: Seq<PlayerV>, sender: Seq<char>, m: RaceMsgV) -> Seq<
    EnvelopeV<RaceMsgV>,
>
    decreases roster.len(),
{
    if roster.len() == 0 {
        Seq::empty()
    } else {
        (if roster[0].username == sender {
            Seq::empty()
        } else {
            seq![EnvelopeV { to: roster[0].id, msg: m }]
        }) + others_fanout(roster.drop_first(), sender, m)
    }
}

/// The username a race event speaks about.
pub open spec fn race_msg_sender(m: RaceMsgV) -> Seq<char> {
    match m {
        RaceMsgV::Update { username, .. } => username,
        RaceMsgV::Finish { username, .. } => username,
        RaceMsgV::Disconnect { username, .. } => username,
        RaceMsgV::Timeout { username } => username,
    }
}

/// The index of the first roster member with the given username, or -1.
pub open spec fn index_of_name(roster: Seq<PlayerV>, name: Seq<char>) -> int
    decreases roster.len(),
{
    if roster.len() == 0 {
        -1
    } else if roster[0].username == name {
        0
    } else {
        let rest = index_of_name(roster.drop_first(), name);
        if rest == -1 {
            -1
        } else {
            1 + rest
        }
    }
}

/// The roster without every member whose id is listed.
pub open spec fn keep_roster(roster: Seq<PlayerV>, ids: Seq<u32>) -> Seq<PlayerV>
    decreases roster.len(),
{
    if roster.len() == 0 {
        Seq::empty()
    } else if ids.contains(roster[0].id) {
        keep_roster(roster.drop_first(), ids)
    } else {
        seq![roster[0]] + keep_roster(roster.drop_first(), ids)
    }
}

/// A disconnect notice for each dropped name, delivered to each remaining
/// member, remaining members outermost.
pub open spec fn disconnect_all(remaining: Seq<PlayerV>, names: Seq<Seq<char>>) -> Seq<
    EnvelopeV<RaceMsgV>,
>
    decreases remaining.len(),
{
    if remaining.len() == 0 {
        Seq::empty()
    } else {
        Seq::new(
            names.len(),
            |j: int| EnvelopeV {
                to: remaining[0].id,
                msg: RaceMsgV::Disconnect { username: names[j], reason: DisconnectReason::Unknown },
            },
        ) + disconnect_all(remaining.drop_first(), names)
    }
}

/// A member dropped by failure reconciliation is gone for good: the kept
/// roster holds nobody with a dropped id, so the session's final flush
/// cannot report such a member's leave a second time.
pub proof fn lemma_dropped_members_stay_dropped(roster: Seq<PlayerV>, ids: Seq<u32>, q: int)
    requires
        0 <= q < keep_roster(roster, ids).len(),
    ensures
        !ids.contains(keep_roster(roster, ids)[q].id),
    decreases roster.len(),
{
    if roster.len() > 0 {
        if ids.contains(roster[0].id) {
            lemma_dropped_members_stay_dropped(roster.drop_first(), ids, q);
        } else {
            if q == 0 {
                assert(keep_roster(roster, ids)[0] == roster[0]);
            } else {
                assert(keep_roster(roster, ids)[q] == keep_roster(roster.drop_first(), ids)[q - 1]);
                lemma_dropped_members_stay_dropped(roster.drop_first(), ids, q - 1);
            }
        }
    }
}

/// The ids of a failure list.
pub open spec fn failed_ids(failed: Seq<(u32, String)>) -> Seq<u32> {
    Seq::new(failed.len(), |i: int| failed[i].0)
}

/// The usernames of a failure list.
pub open spec fn failed_names(failed: Seq<(u32, String)>) -> Seq<Seq<char>> {
    Seq::new(failed.len(), |i: int| failed[i].1@)
}

/// An exact copy of a race event.
fn copy_race_msg(m: &RaceMsg) -> (c: RaceMsg)
    ensures
        c@ == m@,
{
    match m {
        RaceMsg::Update { username, progress } => RaceMsg::Update {
            username: username.clone(),
            progress: *progress,
        },
        RaceMsg::Finish { username, result } => RaceMsg::Finish {
            username: username.clone(),
            result: *result,
        },
        RaceMsg::Disconnect { username, reason } => RaceMsg::Disconnect {
            username: username.clone(),
            reason: *reason,
        },
        RaceMsg::Timeout { username } => RaceMsg::Timeout { username: username.clone() },
    }
}

/// The abstract state of a race session: the lobby it was drained from and
/// the members still registered with it.
pub struct RaceSessionV {
    pub lobby_id: u32,
    pub roster: Seq<PlayerV>,
}

/// A running race session.
#[derive(Debug)]
pub struct RaceSession {
    lobby_id: u32,
    roster: Vec<Player>,
}

impl View for RaceSession {
    type V = RaceSessionV;

    closed spec fn view(&self) -> RaceSessionV {
        RaceSessionV { lobby_id: self.lobby_id, roster: seq_view(self.roster@) }
    }
}

impl RaceSession {
    /// Opens the session for a drained lobby: every member is announced the
    /// same freshly drawn seed, with which all clients generate identical
    /// content.
    pub fn start(race: RaceStart) -> (r: (RaceSession, Vec<Envelope<LobbyMsg>>))
        ensures
            r.0@.lobby_id == race.lobby_id,
            r.0@.roster == seq_view(race.roster@),
            exists|seed: Seq<i32>| seq_view(r.1@) == start_fanout(seq_view(race.roster@), seed),
    {
        let seed: Seed = rand::random();
        let mut announcements: Vec<Envelope<LobbyMsg>> = Vec::new();
        let n = race.roster.len();
        let ghost roster_v = seq_view(race.roster@);
        let mut i: usize = 0;
        while i < n
            invariant
                n == race.roster@.len(),
                i <= n,
                roster_v == seq_view(race.roster@),
                seq_view(announcements@) == start_fanout(roster_v, seed@).take(i as int),
            decreases n - i,
        {
            let ghost built = seq_view(announcements@);
            proof {
                assert(built.len() == i as int);
                assert(start_fanout(roster_v, seed@).len() == n);
            }
            announcements.push(Envelope { to: race.roster[i].id, msg: LobbyMsg::Start { seed } });
            proof {
                assert(announcements@.len() == i + 1);
                assert(seq_view(announcements@).len() == i + 1);
                assert(seq_view(announcements@)[i as int] == start_fanout(roster_v, seed@)[i as int]);
                assert(forall|j: int| 0 <= j < i ==> seq_view(announcements@)[j] == built[j]);
                assert(seq_view(announcements@) =~= start_fanout(roster_v, seed@).take(i + 1));
            }
            i += 1;
        }
        proof {
            assert(start_fanout(roster_v, seed@).take(n as int) =~= start_fanout(
                roster_v,
                seed@,
            ));
        }
        (RaceSession { lobby_id: race.lobby_id, roster: race.roster }, announcements)
    }

    /// Whether some registered member has this username.
    pub fn has_member_named(&self, name: &String) -> (b: bool)
        ensures
            b <==> index_of_name(self@.roster, name@) >= 0,
    {
        let n = self.roster.len();
        let mut i: usize = 0;
        while i < n
            invariant
                n == self.roster@.len(),
                i <= n,
                forall|q: int| 0 <= q < i ==> seq_view(self.roster@)[q].username != name@,
            decreases n - i,
        {
            if self.roster[i].username == *name {
                proof {
                    lemma_index_of_name_found(seq_view(self.roster@), name@, i as int);
                }
                return true;
            }
            i += 1;
        }
        proof {
            lemma_index_of_name_absent(seq_view(self.roster@), name@);
        }
        false
    }

    /// Handles one merged race event, mirroring the merge loop's dispatch.
    ///
    /// An update or finish is relayed to every member except the one it
    /// speaks about.  A timeout delivers one final notice to the silent
    /// member, removes them (their own listener reports the leave), and
    /// announces the disconnection to everybody remaining.  A disconnect
    /// event arriving from outside is ignored.
    pub fn dispatch(&mut self, msg: &RaceMsg) -> (sends: Vec<Envelope<RaceMsg>>)
        requires
            msg@ matches RaceMsgV::Timeout { username } ==> index_of_name(
                old(self)@.roster,
                username,
            ) >= 0,
        ensures
            final(self)@.lobby_id == old(self)@.lobby_id,
            match msg@ {
                RaceMsgV::Update { username, .. } => final(self)@.roster == old(self)@.roster
                    && seq_view(sends@) == others_fanout(old(self)@.roster, username, msg@),
                RaceMsgV::Finish { username, .. } => final(self)@.roster == old(self)@.roster
                    && seq_view(sends@) == others_fanout(old(self)@.roster, username, msg@),
                RaceMsgV::Disconnect { .. } => final(self)@.roster == old(self)@.roster && sends@
                    =~= Seq::<Envelope<RaceMsg>>::empty(),
                RaceMsgV::Timeout { username } => {
                    let pos = index_of_name(old(self)@.roster, username);
                    &&& final(self)@.roster == old(self)@.roster.update(
                        pos,
                        old(self)@.roster.last(),
                    ).drop_last()
                    &&& seq_view(sends@) == seq![
                        EnvelopeV { to: old(self)@.roster[pos].id, msg: msg@ },
                    ] + all_fanout(
                        final(self)@.roster,
                        RaceMsgV::Disconnect {
                            username,
                            reason: DisconnectReason::Timeout,
                        },
                    )
                },
            },
    {
        match msg {
            RaceMsg::Update { username, .. } => self.relay_to_others(username, msg),
            RaceMsg::Finish { username, .. } => self.relay_to_others(username, msg),
            RaceMsg::Timeout { username } => self.drop_timed_out(username, msg),
            RaceMsg::Disconnect { .. } => Vec::new(),
        }
    }

    /// The position of the first member with this username.
    fn find_member_index(&self, name: &String) -> (pos: usize)
        requires
            index_of_name(self@.roster, name@) >= 0,
        ensures
            pos < self@.roster.len(),
            pos == index_of_name(self@.roster, name@),
    {
        let n = self.roster.len();
        let mut i: usize = 0;
        while i < n
            invariant
                n == self.roster@.len(),
                i <= n,
                index_of_name(seq_view(self.roster@), name@) >= 0,
                forall|q: int| 0 <= q < i ==> seq_view(self.roster@)[q].username != name@,
            decreases n - i,
        {
            if self.roster[i].username == *name {
                proof {
                    lemma_index_of_name_found(seq_view(self.roster@), name@, i as int);
                }
                return i;
            }
            i += 1;
        }
        proof {
            lemma_index_of_name_absent(seq_view(self.roster@), name@);
        }
        // unreachable: the member exists by the precondition
        0
    }

    /// Relays an event to every member except the one it speaks about.
    fn relay_to_others(&mut self, sender: &String, msg: &RaceMsg) -> (sends: Vec<
        Envelope<RaceMsg>,
    >)
        requires
            sender@ == race_msg_sender(msg@),
        ensures
            *final(self) == *old(self),
            seq_view(sends@) == others_fanout(old(self)@.roster, sender@, msg@),
    {
        let mut sends: Vec<Envelope<RaceMsg>> = Vec::new();
        let n = self.roster.len();
        let ghost roster_v = seq_view(self.roster@);
        proof {
            assert(roster_v.skip(0) =~= roster_v);
            assert(seq_view(sends@) =~= Seq::<EnvelopeV<RaceMsgV>>::empty());
            assert(seq_view(sends@) + others_fanout(roster_v.skip(0), sender@, msg@)
                =~= others_fanout(roster_v, sender@, msg@));
        }
        let mut i: usize = 0;
        while i < n
            invariant
                self == old(self),
                n == self.roster@.len(),
                i <= n,
                roster_v == seq_view(self.roster@),
                sender@ == race_msg_sender(msg@),
                others_fanout(roster_v, sender@, msg@) == seq_view(sends@) + others_fanout(
                    roster_v.skip(i as int),
                    sender@,
                    msg@,
                ),
            decreases n - i,
        {
            proof {
                assert(roster_v.skip(i as int)[0] == roster_v[i as int]);
                assert(roster_v.skip(i as int).drop_first() =~= roster_v.skip(i + 1));
            }
            let ghost sends_pre = seq_view(sends@);
            if self.roster[i].username != *sender {
                sends.push(Envelope { to: self.roster[i].id, msg: copy_race_msg(msg) });
                proof {
                    assert(seq_view(sends@).len() == sends_pre.len() + 1);
                    assert(seq_view(sends@)[sends_pre.len() as int] == EnvelopeV {
                        to: roster_v[i as int].id,
                        msg: msg@,
                    });
                    assert(forall|q: int|
                        0 <= q < sends_pre.len() ==> seq_view(sends@)[q] == sends_pre[q]);
                    assert(seq_view(sends@) =~= sends_pre + seq![
                        EnvelopeV { to: roster_v[i as int].id, msg: msg@ },
                    ]);
                    assert(sends_pre + (seq![
                        EnvelopeV { to: roster_v[i as int].id, msg: msg@ },
                    ] + others_fanout(roster_v.skip(i + 1), sender@, msg@)) =~= seq_view(sends@)
                        + others_fanout(roster_v.skip(i + 1), sender@, msg@));
                }
            } else {
                proof {
                    assert(sends_pre + (Seq::<EnvelopeV<RaceMsgV>>::empty() + others_fanout(
                        roster_v.skip(i + 1),
                        sender@,
                        msg@,
                    )) =~= seq_view(sends@) + others_fanout(roster_v.skip(i + 1), sender@, msg@));
                }
            }
            i += 1;
        }
        proof {
            assert(roster_v.skip(n as int) =~= Seq::<PlayerV>::empty());
            assert(seq_view(sends@) =~= seq_view(sends@) + others_fanout(
                roster_v.skip(n as int),
                sender@,
                msg@,
            ));
        }
        sends
    }

    /// Delivers a last notice to a timed-out member, removes them from the
    /// roster, and announces the disconnection to everybody remaining.
    fn drop_timed_out(&mut self, username: &String, msg: &RaceMsg) -> (sends: Vec<
        Envelope<RaceMsg>,
    >)
        requires
            index_of_name(old(self)@.roster, username@) >= 0,
            msg@ matches RaceMsgV::Timeout { username: u } && u == username@,
        ensures
            final(self)@.lobby_id == old(self)@.lobby_id,
            ({
                let pos = index_of_name(old(self)@.roster, username@);
                &&& final(self)@.roster == old(self)@.roster.update(
                    pos,
                    old(self)@.roster.last(),
                ).drop_last()
                &&& seq_view(sends@) == seq![
                    EnvelopeV { to: old(self)@.roster[pos].id, msg: msg@ },
                ] + all_fanout(
                    final(self)@.roster,
                    RaceMsgV::Disconnect { username: username@, reason: DisconnectReason::Timeout },
                )
            }),
    {
        let ghost pre_roster = seq_view(self.roster@);
        let pos = self.find_member_index(username);

        let mut sends: Vec<Envelope<RaceMsg>> = Vec::new();
        sends.push(Envelope { to: self.roster[pos].id, msg: copy_race_msg(msg) });
        let _ = self.roster.swap_remove(pos);
        let ghost post_roster = seq_view(self.roster@);
        proof {
            assert(post_roster =~= pre_roster.update(pos as int, pre_roster.last()).drop_last());
        }

        let notice = RaceMsg::Disconnect {
            username: username.clone(),
            reason: DisconnectReason::Timeout,
        };
        let ghost notice_v = notice@;
        let ghost head = seq![EnvelopeV { to: pre_roster[pos as int].id, msg: msg@ }];
        proof {
            assert(all_fanout(post_roster, notice_v).take(0) =~= Seq::<
                EnvelopeV<RaceMsgV>,
            >::empty());
            assert(seq_view(sends@) =~= head);
            assert(seq_view(sends@) =~= head + all_fanout(post_roster, notice_v).take(0));
        }
        let m = self.roster.len();
        let mut i: usize = 0;
        while i < m
            invariant
                m == self.roster@.len(),
                i <= m,
                post_roster == seq_view(self.roster@),
                notice@ == notice_v,
                seq_view(sends@) == head + all_fanout(post_roster, notice_v).take(i as int),
            decreases m - i,
        {
            let ghost built = seq_view(sends@);
            sends.push(Envelope { to: self.roster[i].id, msg: copy_race_msg(&notice) });
            proof {
                let env_v = EnvelopeV { to: post_roster[i as int].id, msg: notice_v };
                let fanout = all_fanout(post_roster, notice_v);
                assert(seq_view(sends@).len() == built.len() + 1);
                assert(seq_view(sends@)[built.len() as int] == env_v);
                assert(forall|q: int| 0 <= q < built.len() ==> seq_view(sends@)[q] == built[q]);
                assert(seq_view(sends@) =~= built.push(env_v));
                assert(fanout[i as int] == env_v);
                assert(fanout.take(i + 1) =~= fanout.take(i as int).push(env_v));
                assert(head + fanout.take(i + 1) =~= (head + fanout.take(i as int)).push(env_v));
                assert(seq_view(sends@) == head + fanout.take(i + 1));
            }
            i += 1;
        }
        proof {
            assert(all_fanout(post_roster, notice_v).take(m as int) =~= all_fanout(
                post_roster,
                notice_v,
            ));
            assert(seq_view(sends@) =~= head + all_fanout(post_roster, notice_v));
        }
        sends
    }

    /// One round of failure reconciliation: removes every member whose send
    /// just failed, plans a disconnect notice for each of them to every
    /// remaining member, and reports each removed member's leave to the
    /// matchmaking coordinator exactly once.  The caller performs the planned
    /// sends and calls again with the newly failed members, until a round
    /// fails nowhere.
    pub fn disconnect_round(&mut self, failed: &Vec<(u32, String)>) -> (r: (
        Vec<Envelope<RaceMsg>>,
        Vec<(u32, u32)>,
    ))
        ensures
            final(self)@.lobby_id == old(self)@.lobby_id,
            final(self)@.roster == keep_roster(old(self)@.roster, failed_ids(failed@)),
            seq_view(r.0@) == disconnect_all(final(self)@.roster, failed_names(failed@)),
            r.1@ == Seq::new(failed@.len(), |i: int| (failed@[i].0, old(self)@.lobby_id)),
    {
        let ghost pre_roster = seq_view(self.roster@);
        let ghost ids = failed_ids(failed@);

        // drop the failed members, preserving roster order
        let mut drained: Vec<Player> = Vec::new();
        drained.append(&mut self.roster);
        while drained.len() > 0
            invariant
                keep_roster(pre_roster, ids) == seq_view(self.roster@) + keep_roster(
                    seq_view(drained@),
                    ids,
                ),
                ids == failed_ids(failed@),
                self.lobby_id == old(self).lobby_id,
            decreases drained@.len(),
        {
            let ghost drained_v = seq_view(drained@);
            let ghost kept_v = seq_view(self.roster@);
            let p = drained.remove(0);
            proof {
                assert(seq_view(drained@) =~= drained_v.drop_first());
                assert(p@ == drained_v[0]);
            }
            if !failed_contains(failed, p.id) {
                self.roster.push(p);
                proof {
                    assert(seq_view(self.roster@) =~= kept_v.push(drained_v[0]));
                    assert(kept_v + (seq![drained_v[0]] + keep_roster(
                        drained_v.drop_first(),
                        ids,
                    )) =~= seq_view(self.roster@) + keep_roster(drained_v.drop_first(), ids));
                }
            }
        }
        proof {
            assert(seq_view(drained@) =~= Seq::<PlayerV>::empty());
            assert(keep_roster(pre_roster, ids) =~= seq_view(self.roster@));
        }

        // one disconnect notice per dropped name, to each remaining member
        let ghost post_roster = seq_view(self.roster@);
        let mut sends: Vec<Envelope<RaceMsg>> = Vec::new();
        let n = self.roster.len();
        let k = failed.len();
        proof {
            assert(post_roster.skip(0) =~= post_roster);
            assert(seq_view(sends@) =~= Seq::<EnvelopeV<RaceMsgV>>::empty());
            assert(seq_view(sends@) + disconnect_all(post_roster.skip(0), failed_names(failed@))
                =~= disconnect_all(post_roster, failed_names(failed@)));
        }
        let mut i: usize = 0;
        while i < n
            invariant
                n == self.roster@.len(),
                k == failed@.len(),
                i <= n,
                post_roster == seq_view(self.roster@),
                ids == failed_ids(failed@),
                self.lobby_id == old(self).lobby_id,
                disconnect_all(post_roster, failed_names(failed@)) == seq_view(sends@)
                    + disconnect_all(post_roster.skip(i as int), failed_names(failed@)),
            decreases n - i,
        {
            let ghost row = Seq::new(
                failed_names(failed@).len(),
                |j: int| EnvelopeV {
                    to: post_roster[i as int].id,
                    msg: RaceMsgV::Disconnect {
                        username: failed_names(failed@)[j],
                        reason: DisconnectReason::Unknown,
                    },
                },
            );
            let ghost sends_at_row_start = seq_view(sends@);
            let mut j: usize = 0;
            while j < k
                invariant
                    n == self.roster@.len(),
                    k == failed@.len(),
                    i < n,
                    j <= k,
                    post_roster == seq_view(self.roster@),
                    self.lobby_id == old(self).lobby_id,
                    row == Seq::new(
                        failed_names(failed@).len(),
                        |q: int| EnvelopeV {
                            to: post_roster[i as int].id,
                            msg: RaceMsgV::Disconnect {
                                username: failed_names(failed@)[q],
                                reason: DisconnectReason::Unknown,
                            },
                        },
                    ),
                    seq_view(sends@) == sends_at_row_start + row.take(j as int),
                decreases k - j,
            {
                let ghost built = seq_view(sends@);
                sends.push(
                    Envelope {
                        to: self.roster[i].id,
                        msg: RaceMsg::Disconnect {
                            username: failed[j].1.clone(),
                            reason: DisconnectReason::Unknown,
                        },
                    },
                );
                proof {
                    let env_v = EnvelopeV {
                        to: post_roster[i as int].id,
                        msg: RaceMsgV::Disconnect {
                            username: failed_names(failed@)[j as int],
                            reason: DisconnectReason::Unknown,
                        },
                    };
                    assert(seq_view(sends@).len() == built.len() + 1);
                    assert(failed_names(failed@)[j as int] == failed@[j as int].1@);
                    assert(seq_view(sends@)[built.len() as int] == env_v);
                    assert(forall|q: int| 0 <= q < built.len() ==> seq_view(sends@)[q] == built[q]);
                    assert(seq_view(sends@) =~= built.push(env_v));
                    assert(row[j as int] == env_v);
                    assert(row.take(j + 1) =~= row.take(j as int).push(env_v));
                    assert(sends_at_row_start + row.take(j + 1) =~= (sends_at_row_start + row.take(
                        j as int,
                    )).push(env_v));
                    assert(seq_view(sends@) == sends_at_row_start + row.take(j + 1));
                }
                j += 1;
            }
            proof {
                assert(row.take(k as int) =~= row);
                assert(post_roster.skip(i as int)[0] == post_roster[i as int]);
                assert(post_roster.skip(i as int).drop_first() =~= post_roster.skip(i + 1));
                assert(disconnect_all(post_roster.skip(i as int), failed_names(failed@))
                    == Seq::new(
                    failed_names(failed@).len(),
                    |q: int| EnvelopeV {
                        to: post_roster.skip(i as int)[0].id,
                        msg: RaceMsgV::Disconnect {
                            username: failed_names(failed@)[q],
                            reason: DisconnectReason::Unknown,
                        },
                    },
                ) + disconnect_all(post_roster.skip(i as int).drop_first(), failed_names(failed@)));
                assert(Seq::new(
                    failed_names(failed@).len(),
                    |q: int| EnvelopeV {
                        to: post_roster.skip(i as int)[0].id,
                        msg: RaceMsgV::Disconnect {
                            username: failed_names(failed@)[q],
                            reason: DisconnectReason::Unknown,
                        },
                    },
                ) =~= row);
                assert(sends_at_row_start + (row + disconnect_all(
                    post_roster.skip(i + 1),
                    failed_names(failed@),
                )) =~= seq_view(sends@) + disconnect_all(
                    post_roster.skip(i + 1),
                    failed_names(failed@),
                ));
            }
            i += 1;
        }
        proof {
            assert(post_roster.skip(n as int) =~= Seq::<PlayerV>::empty());
            assert(seq_view(sends@) =~= disconnect_all(post_roster, failed_names(failed@)));
        }

        // exactly one leave report per dropped member
        let mut leaves: Vec<(u32, u32)> = Vec::new();
        let mut j: usize = 0;
        while j < k
            invariant
                k == failed@.len(),
                j <= k,
                self.lobby_id == old(self).lobby_id,
                leaves@ == Seq::new(j as nat, |q: int| (failed@[q].0, old(self).lobby_id)),
            decreases k - j,
        {
            leaves.push((failed[j].0, self.lobby_id));
            proof {
                assert(leaves@ =~= Seq::new((j + 1) as nat, |q: int| (failed@[q].0, old(self).lobby_id)));
            }
            j += 1;
        }
        proof {
            assert(leaves@ =~= Seq::new(k as nat, |q: int| (failed@[q].0, old(self).lobby_id)));
        }

        (sends, leaves)
    }

    /// Ends the session once the merge channel has drained: every member
    /// still registered is reported to the matchmaking coordinator as having
    /// left their lobby.
    pub fn finish(self) -> (leaves: Vec<(u32, u32)>)
        ensures
            leaves@ == Seq::new(self@.roster.len(), |i: int| (self@.roster[i].id, self@.lobby_id)),
    {
        let ghost roster_v = seq_view(self.roster@);
        let mut leaves: Vec<(u32, u32)> = Vec::new();
        let n = self.roster.len();
        let mut i: usize = 0;
        while i < n
            invariant
                n == self.roster@.len(),
                i <= n,
                roster_v == seq_view(self.roster@),
                leaves@ == Seq::new(i as nat, |q: int| (roster_v[q].id, self.lobby_id)),
                self.lobby_id == self@.lobby_id,
            decreases n - i,
        {
            leaves.push((self.roster[i].id, self.lobby_id));
            proof {
                assert(leaves@ =~= Seq::new((i + 1) as nat, |q: int| (roster_v[q].id, self.lobby_id)));
            }
            i += 1;
        }
        proof {
            assert(leaves@ =~= Seq::new(n as nat, |q: int| (roster_v[q].id, self.lobby_id)));
        }
        leaves
    }
}

/// Whether a failure list names an id.
fn failed_contains(failed: &Vec<(u32, String)>, id: u32) -> (b: bool)
    ensures
        b == failed_ids(failed@).contains(id),
{
    let n = failed.len();
    let mut i: usize = 0;
    while i < n
        invariant
            n == failed@.len(),
            i <= n,
            forall|q: int| 0 <= q < i ==> failed_ids(failed@)[q] != id,
        decreases n - i,
    {
        if failed[i].0 == id {
            proof {
                assert(failed_ids(failed@)[i as int] == id);
            }
            return true;
        }
        i += 1;
    }
    proof {
        assert(forall|q: int| 0 <= q < failed_ids(failed@).len() ==> failed_ids(failed@)[q] != id);
    }
    false
}


proof fn lemma_index_of_name_found(roster: Seq<PlayerV>, name: Seq<char>, i: int)
    requires
        0 <= i < roster.len(),
        roster[i].username == name,
        forall|q: int| 0 <= q < i ==> roster[q].username != name,
    ensures
        index_of_name(roster, name) == i,
    decreases i,
{
    if i > 0 {
        assert(forall|q: int|
            0 <= q < i - 1 ==> roster.drop_first()[q].username != name);
        lemma_index_of_name_found(roster.drop_first(), name, i - 1);
    }
}

proof fn lemma_index_of_name_absent(roster: Seq<PlayerV>, name: Seq<char>)
    requires
        forall|q: int| 0 <= q < roster.len() ==> roster[q].username != name,
    ensures
        index_of_name(roster, name) == -1,
    decreases roster.len(),
{
    if roster.len() > 0 {
        assert(forall|q: int|
            0 <= q < roster.drop_first().len() ==> roster.drop_first()[q].username != name);
        lemma_index_of_name_absent(roster.drop_first(), name);
    }
}

} // verus!
