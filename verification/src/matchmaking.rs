//! The matchmaking coordinator: a single state machine that admits players
//! into the open quick-match lobby, drains the lobby into a race session when
//! it fills or when its eviction timer fires, and keeps the duplicate-
//! membership map that guarantees a user is queued at most once.
//!
//! The surrounding server owns the mailbox and the timers; each mailbox
//! message becomes one call of [`Matchmaking::join`], [`Matchmaking::evict`]
//! or [`Matchmaking::leave`], and the caller performs the sends and arms the
//! timers that the returned effects ask for.

use vstd::prelude::*;

use crate::connection::{Player, PlayerV};
use crate::counter::{step_consistent, wrap_inc, CounterStep};
use crate::protocol::{seq_view, Envelope, EnvelopeV, LobbyMsg, LobbyMsgV};

verus! {

/// A lobby is drained the instant it holds this many players.
pub const MAX_USERS_PER_LOBBY: usize = 5;

/// How long a two-member lobby waits before its eviction timer fires.
pub const TIME_UNTIL_EVICTION_SECS: u64 = 5;

/// Rejection of a matchmaking request; the rejected player is carried back so
/// that the caller can dispose of the connection.
#[derive(Debug)]
pub enum MmsError {
    JoinError(Player),
}

/// A drained lobby on its way to a fresh race session.
#[derive(Debug)]
pub struct RaceStart {
    pub lobby_id: u32,
    pub roster: Vec<Player>,
}

/// Everything a successful join asks the caller to do: deliver the pairwise
/// "joined" notices, arm the eviction timer if one is due, and start a race
/// if the lobby just filled.
#[derive(Debug)]
pub struct JoinEffects {
    pub notices: Vec<Envelope<LobbyMsg>>,
    pub arm_eviction: Option<u32>,
    pub race: Option<RaceStart>,
}

/// The duplicate-membership map, kept as a vector of `(user id, lobby id)`
/// pairs with pairwise-distinct keys, read as a map.
pub open spec fn pairs_to_map(s: Seq<(u32, u32)>) -> Map<u32, u32>
    decreases s.len(),
{
    if s.len() == 0 {
        Map::empty()
    } else {
        pairs_to_map(s.drop_last()).insert(s.last().0, s.last().1)
    }
}

/// Pairwise-distinct keys in a pair vector.
pub open spec fn keys_distinct(s: Seq<(u32, u32)>) -> bool {
    forall|i: int, j: int|
        0 <= i < j < s.len() ==> (#[trigger] s[i]).0 != (#[trigger] s[j]).0
}

proof fn lemma_pairs_contains(s: Seq<(u32, u32)>, k: u32)
    ensures
        pairs_to_map(s).contains_key(k) <==> exists|i: int| 0 <= i < s.len() && (#[trigger] s[i]).0 == k,
    decreases s.len(),
{
    if s.len() > 0 {
        lemma_pairs_contains(s.drop_last(), k);
        if s.last().0 == k {
            assert(s[s.len() - 1].0 == k);
        } else if pairs_to_map(s).contains_key(k) {
            let i = choose|i: int| 0 <= i < s.drop_last().len() && (#[trigger] s.drop_last()[i]).0 == k;
            assert(s[i].0 == k);
        } else {
            assert forall|i: int| 0 <= i < s.len() implies (#[trigger] s[i]).0 != k by {
                if i < s.len() - 1 {
                    assert(s.drop_last()[i].0 == s[i].0);
                }
            }
        }
    }
}

proof fn lemma_pairs_get(s: Seq<(u32, u32)>, i: int)
    requires
        keys_distinct(s),
        0 <= i < s.len(),
    ensures
        pairs_to_map(s).contains_key(s[i].0),
        pairs_to_map(s)[s[i].0] == s[i].1,
    decreases s.len(),
{
    if i == s.len() - 1 {
    } else {
        assert(keys_distinct(s.drop_last()));
        assert(s.drop_last()[i] == s[i]);
        lemma_pairs_get(s.drop_last(), i);
        assert(s[s.len() - 1].0 != s[i].0);
    }
}

proof fn lemma_pairs_push(s: Seq<(u32, u32)>, p: (u32, u32))
    ensures
        pairs_to_map(s.push(p)) == pairs_to_map(s).insert(p.0, p.1),
{
    assert(s.push(p).drop_last() =~= s);
    assert(s.push(p).last() == p);
}

proof fn lemma_pairs_remove(s: Seq<(u32, u32)>, i: int)
    requires
        keys_distinct(s),
        0 <= i < s.len(),
    ensures
        pairs_to_map(s.remove(i)) == pairs_to_map(s).remove(s[i].0),
    decreases s.len(),
{
    let k = s[i].0;
    if i == s.len() - 1 {
        assert(s.remove(i) =~= s.drop_last());
        lemma_pairs_contains(s.drop_last(), k);
        assert(forall|j: int| 0 <= j < s.drop_last().len() ==> (#[trigger] s.drop_last()[j]).0 != k);
        assert(!pairs_to_map(s.drop_last()).contains_key(k));
        assert(pairs_to_map(s.drop_last()).insert(k, s[i].1).remove(k) =~= pairs_to_map(
            s.drop_last(),
        ));
        assert(pairs_to_map(s.remove(i)) =~= pairs_to_map(s).remove(k));
    } else {
        let t = s.drop_last();
        assert(keys_distinct(t));
        assert(t[i] == s[i]);
        lemma_pairs_remove(t, i);
        assert(s.remove(i).drop_last() =~= t.remove(i));
        assert(s.remove(i).last() == s.last());
        // insert of the last pair and removal of the distinct key `k` commute
        assert(s.last().0 != k);
        assert(pairs_to_map(t).remove(k).insert(s.last().0, s.last().1) =~= pairs_to_map(t).insert(
            s.last().0,
            s.last().1,
        ).remove(k));
        assert(pairs_to_map(s.remove(i)) =~= pairs_to_map(s).remove(k));
    }
}

/// The abstract state of the coordinator: the current lobby id, the admitted
/// players of the open lobby in admission order, and the duplicate-membership
/// map from user id to the lobby the user was admitted to.
pub struct MatchmakingV {
    pub lobby_id: u32,
    pub lobby: Seq<PlayerV>,
    pub members: Map<u32, u32>,
}

/// The matchmaking coordinator's state.
pub struct Matchmaking {
    lobby_id: u32,
    lobby: Vec<Player>,
    members: Vec<(u32, u32)>,
}

impl View for Matchmaking {
    type V = MatchmakingV;

    closed spec fn view(&self) -> MatchmakingV {
        MatchmakingV {
            lobby_id: self.lobby_id,
            lobby: seq_view(self.lobby@),
            members: pairs_to_map(self.members@),
        }
    }
}

/// Whether the open lobby currently holds a member with this id.
pub open spec fn lobby_has_id(lobby: Seq<PlayerV>, id: u32) -> bool {
    exists|i: int| 0 <= i < lobby.len() && (#[trigger] lobby[i]).id == id
}

/// The pairwise announcement of a join: every already-admitted member learns
/// of the newcomer, and the newcomer learns of each already-admitted member,
/// in admission order.
pub open spec fn pairwise_notices(lobby: Seq<PlayerV>, joiner: PlayerV) -> Seq<
    EnvelopeV<LobbyMsgV>,
>
    decreases lobby.len(),
{
    if lobby.len() == 0 {
        Seq::empty()
    } else {
        pairwise_notices(lobby.drop_last(), joiner) + seq![
            EnvelopeV { to: lobby.last().id, msg: LobbyMsgV::Joined { username: joiner.username } },
            EnvelopeV {
                to: joiner.id,
                msg: LobbyMsgV::Joined { username: lobby.last().username },
            },
        ]
    }
}

impl Matchmaking {
    /// The coordinator's invariant: the open lobby is always below the drain
    /// threshold, the membership map's backing vector has distinct keys, the
    /// lobby holds no user twice, and every lobby member is registered in the
    /// map under the current lobby id.
    pub closed spec fn wf(&self) -> bool {
        &&& self.lobby@.len() < MAX_USERS_PER_LOBBY
        &&& keys_distinct(self.members@)
        &&& (forall|i: int, j: int|
            0 <= i < j < self.lobby@.len() ==> (#[trigger] self.lobby@[i]).id != (
            #[trigger] self.lobby@[j]).id)
        &&& (forall|i: int|
            0 <= i < self.lobby@.len() ==> pairs_to_map(self.members@).contains_key(
                (#[trigger] self.lobby@[i]).id,
            ) && pairs_to_map(self.members@)[self.lobby@[i].id] == self.lobby_id)
    }

    /// A fresh coordinator: lobby id zero, nobody queued.
    pub fn new() -> (m: Matchmaking)
        ensures
            m.wf(),
            m@.lobby_id == 0,
            m@.lobby == Seq::<PlayerV>::empty(),
            m@.members == Map::<u32, u32>::empty(),
    {
        let m = Matchmaking { lobby_id: 0, lobby: Vec::new(), members: Vec::new() };
        proof {
            assert(m@.lobby =~= Seq::<PlayerV>::empty());
        }
        m
    }

    /// Looks a user up in the duplicate-membership map.
    fn members_get(&self, id: u32) -> (r: Option<u32>)
        requires
            keys_distinct(self.members@),
        ensures
            match r {
                Some(l) => self@.members.contains_key(id) && self@.members[id] == l,
                None => !self@.members.contains_key(id),
            },
    {
        let n = self.members.len();
        let mut i: usize = 0;
        while i < n
            invariant
                n == self.members@.len(),
                keys_distinct(self.members@),
                forall|j: int| 0 <= j < i ==> (#[trigger] self.members@[j]).0 != id,
            decreases n - i,
        {
            if self.members[i].0 == id {
                proof {
                    lemma_pairs_get(self.members@, i as int);
                }
                return Some(self.members[i].1);
            }
            i += 1;
        }
        proof {
            lemma_pairs_contains(self.members@, id);
        }
        None
    }

    /// Admits a player into the open lobby, or rejects a duplicate.
    ///
    /// A duplicate join (the user id is already registered) mutates nothing
    /// and carries the player back inside the error.  An admitted player is
    /// announced pairwise to the lobby, registered in the membership map, and
    /// appended; reaching two members arms the eviction timer, and reaching
    /// [`MAX_USERS_PER_LOBBY`] drains the lobby into a race session and rolls
    /// the lobby id forward.
    pub fn join(&mut self, player: Player) -> (r: Result<JoinEffects, MmsError>)
        requires
            old(self).wf(),
        ensures
            final(self).wf(),
            final(self)@.lobby.len() < MAX_USERS_PER_LOBBY,
            old(self)@.members.contains_key(player@.id) ==> (r matches Err(
                MmsError::JoinError(p),
            ) && p@ == player@ && final(self)@ == old(self)@),
            !old(self)@.members.contains_key(player@.id) ==> (r matches Ok(eff) && {
                let pre = old(self)@;
                &&& final(self)@.members == pre.members.insert(player@.id, pre.lobby_id)
                &&& seq_view(eff.notices@) == pairwise_notices(pre.lobby, player@)
                &&& eff.arm_eviction == (if pre.lobby.len() + 1 == 2 {
                    Some(pre.lobby_id)
                } else {
                    None::<u32>
                })
                &&& (if pre.lobby.len() + 1 == MAX_USERS_PER_LOBBY {
                    &&& eff.race matches Some(rs) && rs.lobby_id == pre.lobby_id && seq_view(
                        rs.roster@,
                    ) == pre.lobby.push(player@)
                    &&& final(self)@.lobby == Seq::<PlayerV>::empty()
                    &&& final(self)@.lobby_id == wrap_inc(pre.lobby_id)
                } else {
                    &&& eff.race is None
                    &&& final(self)@.lobby == pre.lobby.push(player@)
                    &&& final(self)@.lobby_id == pre.lobby_id
                })
            }),
            step_consistent(
                CounterStep {
                    pre: old(self)@.lobby_id,
                    post: final(self)@.lobby_id,
                    issued: match r {
                        Ok(eff) => match eff.race {
                            Some(rs) => Some(rs.lobby_id),
                            None => None,
                        },
                        Err(_) => None,
                    },
                },
            ),
    {
        let ghost pre = self@;
        let ghost pre_members = self.members@;
        let ghost joiner = player@;
        if self.members_get(player.id).is_some() {
            return Err(MmsError::JoinError(player));
        }

        proof {
            lemma_pairs_push(pre_members, (player.id, self.lobby_id));
            lemma_pairs_contains(pre_members, player.id);
            assert(forall|q: int|
                0 <= q < pre_members.len() ==> (#[trigger] pre_members[q]).0 != player.id);
        }
        self.members.push((player.id, self.lobby_id));
        proof {
            assert(keys_distinct(self.members@)) by {
                assert(forall|q: int|
                    0 <= q < self.members@.len() ==> #[trigger] self.members@[q] == if q
                        < pre_members.len() {
                        pre_members[q]
                    } else {
                        (player.id, pre.lobby_id)
                    });
            }
        }

        let mut notices: Vec<Envelope<LobbyMsg>> = Vec::new();
        let n = self.lobby.len();
        let mut i: usize = 0;
        while i < n
            invariant
                n == self.lobby@.len(),
                i <= n,
                self.lobby_id == pre.lobby_id,
                seq_view(self.lobby@) == pre.lobby,
                self.members@ == pre_members.push((player.id, pre.lobby_id)),
                player@ == joiner,
                seq_view(notices@) == pairwise_notices(pre.lobby.take(i as int), joiner),
            decreases n - i,
        {
            let existing_name = self.lobby[i].username.clone();
            let existing_id = self.lobby[i].id;
            notices.push(
                Envelope {
                    to: existing_id,
                    msg: LobbyMsg::Joined { username: player.username.clone() },
                },
            );
            notices.push(
                Envelope { to: player.id, msg: LobbyMsg::Joined { username: existing_name } },
            );
            proof {
                assert(pre.lobby.take(i + 1).drop_last() =~= pre.lobby.take(i as int));
                assert(pre.lobby.take(i + 1).last() == pre.lobby[i as int]);
                assert(pre.lobby[i as int] == self.lobby@[i as int]@);
                assert(seq_view(notices@) =~= pairwise_notices(pre.lobby.take(i + 1), joiner));
            }
            i += 1;
        }
        proof {
            assert(pre.lobby.take(n as int) =~= pre.lobby);
        }

        self.lobby.push(player);
        proof {
            assert(seq_view(self.lobby@) =~= pre.lobby.push(joiner));
            // the newcomer's id differs from every queued player's: queued
            // players are registered in the map, the newcomer was not
            assert forall|q: int| 0 <= q < pre.lobby.len() implies pre.lobby[q].id != joiner.id by {
                assert(pre.members.contains_key(seq_view(old(self).lobby@)[q].id));
            }
            assert(forall|q: int|
                0 <= q < self.lobby@.len() ==> (#[trigger] self.lobby@[q])@ == pre.lobby.push(
                    joiner,
                )[q]);
            assert forall|q: int|
                0 <= q < self.lobby@.len() implies pairs_to_map(self.members@).contains_key(
                (#[trigger] self.lobby@[q]).id,
            ) && pairs_to_map(self.members@)[self.lobby@[q].id] == self.lobby_id by {
                if q < pre.lobby.len() {
                    assert(pre.members.contains_key(pre.lobby[q].id));
                    assert(pre.members[pre.lobby[q].id] == pre.lobby_id);
                    assert(self.lobby@[q].id == pre.lobby[q].id);
                }
            }
        }

        let arm_eviction = if self.lobby.len() == 2 {
            Some(self.lobby_id)
        } else {
            None
        };

        let race = if self.lobby.len() == MAX_USERS_PER_LOBBY {
            let mut roster: Vec<Player> = Vec::new();
            roster.append(&mut self.lobby);
            let started = RaceStart { lobby_id: self.lobby_id, roster };
            self.lobby_id = self.lobby_id.wrapping_add(1);
            proof {
                assert(seq_view(self.lobby@) =~= Seq::<PlayerV>::empty());
                assert(seq_view(started.roster@) =~= pre.lobby.push(joiner));
            }
            Some(started)
        } else {
            None
        };

        Ok(JoinEffects { notices, arm_eviction, race })
    }

    /// Handles an eviction-timer firing.  A stale id (the lobby it was armed
    /// for has already been drained or has filled) is a no-op; the current id
    /// drains the open lobby into a race session and rolls the id forward.
    pub fn evict(&mut self, id: u32) -> (r: Option<RaceStart>)
        requires
            old(self).wf(),
        ensures
            final(self).wf(),
            final(self)@.lobby.len() < MAX_USERS_PER_LOBBY,
            id != old(self)@.lobby_id ==> r is None && final(self)@ == old(self)@,
            id == old(self)@.lobby_id ==> (r matches Some(rs) && {
                &&& rs.lobby_id == id
                &&& seq_view(rs.roster@) == old(self)@.lobby
                &&& final(self)@.lobby == Seq::<PlayerV>::empty()
                &&& final(self)@.lobby_id == wrap_inc(id)
                &&& final(self)@.members == old(self)@.members
            }),
            step_consistent(
                CounterStep {
                    pre: old(self)@.lobby_id,
                    post: final(self)@.lobby_id,
                    issued: match r {
                        Some(rs) => Some(rs.lobby_id),
                        None => None,
                    },
                },
            ),
    {
        if id != self.lobby_id {
            return None;
        }
        let mut roster: Vec<Player> = Vec::new();
        roster.append(&mut self.lobby);
        let started = RaceStart { lobby_id: self.lobby_id, roster };
        self.lobby_id = self.lobby_id.wrapping_add(1);
        proof {
            assert(seq_view(self.lobby@) =~= Seq::<PlayerV>::empty());
        }
        Some(started)
    }

    /// Removes a user's membership record, but only if it still names the
    /// given lobby and the user is not queued in the open lobby right now.
    /// A record naming a different lobby belongs to a newer admission of the
    /// same user and stays; and a signal about a currently queued user is
    /// stale, so removing their record would corrupt the open lobby's
    /// bookkeeping.
    pub fn leave(&mut self, id: u32, lobby_id: u32)
        requires
            old(self).wf(),
        ensures
            final(self).wf(),
            final(self)@.lobby == old(self)@.lobby,
            final(self)@.lobby_id == old(self)@.lobby_id,
            (old(self)@.members.contains_key(id) && old(self)@.members[id] == lobby_id
                && !lobby_has_id(old(self)@.lobby, id)) ==> final(self)@.members == old(
                self,
            )@.members.remove(id),
            !(old(self)@.members.contains_key(id) && old(self)@.members[id] == lobby_id
                && !lobby_has_id(old(self)@.lobby, id)) ==> final(self)@.members == old(
                self,
            )@.members,
    {
        let ghost pre = self@;
        let ghost pre_members = self.members@;

        // a user who is queued right now is never removed
        let m = self.lobby.len();
        let mut q: usize = 0;
        while q < m
            invariant
                m == self.lobby@.len(),
                q <= m,
                self == old(self),
                old(self).wf(),
                forall|j: int| 0 <= j < q ==> (#[trigger] self.lobby@[j]).id != id,
            decreases m - q,
        {
            if self.lobby[q].id == id {
                proof {
                    assert(old(self)@.lobby[q as int].id == id);
                    assert(lobby_has_id(old(self)@.lobby, id));
                }
                return ;
            }
            q += 1;
        }
        proof {
            assert(!lobby_has_id(old(self)@.lobby, id)) by {
                assert(forall|j: int|
                    0 <= j < old(self)@.lobby.len() ==> (#[trigger] old(self)@.lobby[j]).id
                        == old(self).lobby@[j].id);
            }
        }

        let n = self.members.len();
        let mut i: usize = 0;
        while i < n
            invariant
                n == self.members@.len(),
                i <= n,
                self == old(self),
                old(self).wf(),
                pre_members == self.members@,
                pre == old(self)@,
                forall|j: int| 0 <= j < old(self).lobby@.len() ==> (#[trigger] old(
                    self,
                ).lobby@[j]).id != id,
                keys_distinct(self.members@),
                forall|j: int| 0 <= j < i ==> (#[trigger] self.members@[j]).0 != id,
            decreases n - i,
        {
            if self.members[i].0 == id {
                proof {
                    lemma_pairs_get(self.members@, i as int);
                }
                if self.members[i].1 == lobby_id {
                    proof {
                        lemma_pairs_remove(self.members@, i as int);
                    }
                    self.members.remove(i);
                    proof {
                        pre_members.remove_ensures(i as int);
                        assert(keys_distinct(self.members@)) by {
                            assert(forall|a: int|
                                0 <= a < self.members@.len() ==> #[trigger] self.members@[a] == if a
                                    < i {
                                    pre_members[a]
                                } else {
                                    pre_members[a + 1]
                                });
                        }
                        // no open-lobby member loses a record: the user whose
                        // record goes is not in the open lobby
                        assert forall|j: int|
                            0 <= j < self.lobby@.len() implies pairs_to_map(
                            self.members@,
                        ).contains_key((#[trigger] self.lobby@[j]).id) && pairs_to_map(
                            self.members@,
                        )[self.lobby@[j].id] == self.lobby_id by {
                            assert(self.lobby@ == old(self).lobby@);
                            assert(0 <= j < old(self).lobby@.len());
                            let member = old(self).lobby@[j];
                            assert(old(self).wf());
                            assert(pairs_to_map(pre_members).contains_key(member.id)
                                && pairs_to_map(pre_members)[member.id] == old(self).lobby_id);
                            assert(member.id != id);
                            assert(pairs_to_map(self.members@) == pairs_to_map(pre_members).remove(
                                id,
                            ));
                        }
                        assert(!lobby_has_id(old(self)@.lobby, id)) by {
                            assert(forall|j: int|
                                0 <= j < old(self)@.lobby.len() ==> (#[trigger] old(
                                    self,
                                )@.lobby[j]).id == old(self).lobby@[j].id);
                        }
                    }
                }
                return ;
            }
            i += 1;
        }
        proof {
            lemma_pairs_contains(self.members@, id);
        }
    }
}

} // verus!
