//! The room manager's registry: which room ids are live, from the moment a
//! room is created until the room itself reports its deletion.
//!
//! The manager actor owns one [`crate::room::Room`] per registered id; the
//! registry decides admission.  Joins to an unknown id fail visibly, and a
//! deletion report for an unknown id is a protocol violation the caller must
//! treat as fatal, so deletion requires the id to be registered.

use vstd::prelude::*;

use crate::rng;
use crate::room::Room;

verus! {

/// The manager's reply to a creation request.
#[derive(Debug, Clone, Copy, PartialEq, Eq, Structural)]
pub struct CreateRoomResponse {
    pub room_id: u32,
}

/// The query a joining connection carries: which room to join.
#[derive(Debug, Clone, Copy, PartialEq, Eq, Structural)]
pub struct JoinRoomParams {
    pub room_id: u32,
}

/// Pairwise-distinct ids.
pub open spec fn ids_unique(s: Seq<u32>) -> bool {
    forall|i: int, j: int| 0 <= i < j < s.len() ==> s[i] != s[j]
}

/// The registry of live rooms.
pub struct RoomRegistry {
    rooms: Vec<u32>,
}

impl View for RoomRegistry {
    type V = Set<u32>;

    closed spec fn view(&self) -> Set<u32> {
        self.rooms@.to_set()
    }
}

impl RoomRegistry {
    /// The registry's invariant: no id is registered twice.
    pub closed spec fn wf(&self) -> bool {
        ids_unique(self.rooms@)
    }

    /// An empty registry.
    pub fn new() -> (r: RoomRegistry)
        ensures
            r.wf(),
            r@ == Set::<u32>::empty(),
    {
        let r = RoomRegistry { rooms: Vec::new() };
        proof {
            assert(r.rooms@.to_set() =~= Set::<u32>::empty());
        }
        r
    }

    /// Whether an id names a live room.
    pub fn contains(&self, room_id: u32) -> (b: bool)
        ensures
            b == self@.contains(room_id),
    {
        let n = self.rooms.len();
        let mut i: usize = 0;
        while i < n
            invariant
                n == self.rooms@.len(),
                i <= n,
                forall|q: int| 0 <= q < i ==> self.rooms@[q] != room_id,
            decreases n - i,
        {
            if self.rooms[i] == room_id {
                proof {
                    assert(self.rooms@.contains(room_id));
                }
                return true;
            }
            i += 1;
        }
        proof {
            assert(!self.rooms@.contains(room_id));
        }
        false
    }

    /// Tries to create a room under a freshly drawn random id.  A fresh draw
    /// registers the id and returns the new room, seeded with its creator; a
    /// draw that collides with a live room changes nothing and hands the
    /// colliding id back, so the caller draws again.  Failure is possible
    /// only by collision: whatever is drawn, an empty registry always
    /// creates.
    pub fn create_room(&mut self, creator_id: u32) -> (r: Result<(u32, Room), u32>)
        requires
            old(self).wf(),
        ensures
            final(self).wf(),
            match r {
                Err(taken) => old(self)@.contains(taken) && final(self)@ == old(self)@,
                Ok((room_id, room)) => {
                    &&& !old(self)@.contains(room_id)
                    &&& final(self)@ == old(self)@.insert(room_id)
                    &&& room.wf()
                    &&& room@.room_id == room_id
                    &&& room@.creator_id == creator_id
                    &&& room@.players == Seq::<crate::room::RoomPlayerV>::empty()
                    &&& room@.host_id is None
                    &&& room@.delete_ticket is None
                    &&& room@.next_ticket == 0
                },
            },
    {
        let room_id: u32 = rand::random();
        if self.contains(room_id) {
            return Err(room_id);
        }
        let ghost pre = self.rooms@;
        self.rooms.push(room_id);
        proof {
            assert(forall|q: int|
                0 <= q < self.rooms@.len() ==> self.rooms@[q] == (if q < pre.len() {
                    pre[q]
                } else {
                    room_id
                }));
            assert(ids_unique(self.rooms@)) by {
                assert(!pre.contains(room_id));
                assert(forall|q: int| 0 <= q < pre.len() ==> pre[q] != room_id);
            }
            assert(self.rooms@.to_set() =~= pre.to_set().insert(room_id)) by {
                assert(forall|y: u32|
                    self.rooms@.contains(y) <==> (pre.contains(y) || y == room_id)) by {
                    assert(forall|q: int|
                        0 <= q < pre.len() ==> self.rooms@[q] == pre[q]);
                    assert(self.rooms@[pre.len() as int] == room_id);
                    assert(forall|q: int|
                        0 <= q < pre.len() && #[trigger] pre[q] != 0u32 ==> self.rooms@[q] == pre[q]);
                }
            }
        }
        Ok((room_id, Room::new(room_id, creator_id)))
    }

    /// Unregisters a room that has reported its own deletion.  The protocol
    /// guarantees the id is live; an unknown id would be an invariant breach
    /// the caller must not mask.
    pub fn delete_room(&mut self, room_id: u32)
        requires
            old(self).wf(),
            old(self)@.contains(room_id),
        ensures
            final(self).wf(),
            final(self)@ == old(self)@.remove(room_id),
    {
        let ghost pre = self.rooms@;
        let n = self.rooms.len();
        let mut i: usize = 0;
        while i < n
            invariant
                n == self.rooms@.len(),
                i <= n,
                self == old(self),
                pre == self.rooms@,
                old(self).wf(),
                forall|q: int| 0 <= q < i ==> self.rooms@[q] != room_id,
            decreases n - i,
        {
            if self.rooms[i] == room_id {
                proof {
                    pre.remove_ensures(i as int);
                }
                self.rooms.remove(i);
                proof {
                    assert(ids_unique(self.rooms@)) by {
                        assert(forall|q: int|
                            0 <= q < self.rooms@.len() ==> self.rooms@[q] == (if q < i {
                                pre[q]
                            } else {
                                pre[q + 1]
                            }));
                    }
                    assert(self.rooms@.to_set() =~= pre.to_set().remove(room_id)) by {
                        assert forall|y: u32|
                            self.rooms@.contains(y) <==> (pre.contains(y) && y != room_id) by {
                            if self.rooms@.contains(y) {
                                let q = choose|q: int|
                                    0 <= q < self.rooms@.len() && self.rooms@[q] == y;
                                if q < i {
                                    assert(pre[q] == y);
                                } else {
                                    assert(pre[q + 1] == y);
                                }
                                assert(pre.contains(y));
                                assert(y != room_id) by {
                                    if q < i {
                                        assert(pre[q] != room_id);
                                    } else {
                                        assert(pre[i as int] == room_id);
                                        assert(pre[q + 1] != pre[i as int]);
                                    }
                                }
                            }
                            if pre.contains(y) && y != room_id {
                                let q = choose|q: int| 0 <= q < pre.len() && pre[q] == y;
                                assert(q != i);
                                if q < i {
                                    assert(self.rooms@[q] == y);
                                } else {
                                    assert(self.rooms@[q - 1] == y);
                                }
                            }
                        }
                    }
                }
                return ;
            }
            i += 1;
        }
        proof {
            assert(!pre.contains(room_id));
        }
    }
}

} // verus!
