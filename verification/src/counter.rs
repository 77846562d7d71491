//! A wrapping issue counter and the freshness it buys.
//!
//! Two coordinators rely on the same scheme: the matchmaking lobby id and the
//! room deletion ticket are both drawn from a counter that advances by one at
//! each issue and wraps.  A stale timer is defused by comparing the id it
//! carries against the current one, so the whole safety of that comparison
//! rests on one fact: ids issued by the counter stay pairwise distinct until
//! the counter has wrapped all the way around.  This module states that fact
//! once, over traces of counter transitions.

use vstd::prelude::*;

verus! {

/// The next counter value: advance by one and wrap.
pub open spec fn wrap_inc(x: u32) -> u32 {
    if x == u32::MAX {
        0u32
    } else {
        (x + 1) as u32
    }
}

/// Adding `n` to a counter value, wrapping as the counter does.
pub open spec fn wrap_add(x: u32, n: nat) -> u32 {
    (((x + n) % 0x1_0000_0000) as u32)
}

/// One observed transition of a coordinator, reduced to what its counter
/// does: the value before and after, and the id the step issued, if any.
pub struct CounterStep {
    pub pre: u32,
    pub post: u32,
    pub issued: Option<u32>,
}

/// What every transition guarantees about the counter: a step that issues an
/// id issues the current value and advances the counter by one; any other
/// step leaves the counter alone.
pub open spec fn step_consistent(s: CounterStep) -> bool {
    match s.issued {
        Some(x) => x == s.pre && s.post == wrap_inc(s.pre),
        None => s.post == s.pre,
    }
}

/// A trace of transitions of one coordinator: each step is consistent and
/// each step starts where the previous one ended.
pub open spec fn trace_chained(tr: Seq<CounterStep>) -> bool {
    &&& forall|k: int| 0 <= k < tr.len() ==> step_consistent(#[trigger] tr[k])
    &&& forall|k: int| 0 <= k < tr.len() - 1 ==> (#[trigger] tr[k + 1]).pre == tr[k].post
}

/// How many steps of a trace issue an id.
pub open spec fn count_issued(tr: Seq<CounterStep>) -> nat
    decreases tr.len(),
{
    if tr.len() == 0 {
        0
    } else {
        count_issued(tr.drop_last()) + if tr.last().issued is Some {
            1nat
        } else {
            0nat
        }
    }
}

proof fn lemma_wrap_inc_is_wrap_add(x: u32)
    ensures
        wrap_inc(x) == wrap_add(x, 1),
{
    if x == u32::MAX {
        assert((x + 1) % 0x1_0000_0000 == 0) by {
            vstd::arithmetic::div_mod::lemma_mod_self_0(0x1_0000_0000);
        }
    } else {
        assert((x + 1) % 0x1_0000_0000 == x + 1) by {
            vstd::arithmetic::div_mod::lemma_small_mod((x + 1) as nat, 0x1_0000_0000);
        }
    }
}

proof fn lemma_wrap_add_step(x: u32, n: nat, d: nat)
    requires
        d <= 1,
    ensures
        wrap_add(wrap_add(x, n), d) == wrap_add(x, n + d),
{
    vstd::arithmetic::div_mod::lemma_add_mod_noop(x + n, d as int, 0x1_0000_0000);
    vstd::arithmetic::div_mod::lemma_mod_twice(x + n, 0x1_0000_0000);
    vstd::arithmetic::div_mod::lemma_small_mod(d, 0x1_0000_0000);
    vstd::arithmetic::div_mod::lemma_mod_bound(x + n, 0x1_0000_0000);
}

proof fn lemma_chain_advance(tr: Seq<CounterStep>)
    requires
        trace_chained(tr),
        tr.len() > 0,
    ensures
        tr.last().post == wrap_add(tr[0].pre, count_issued(tr)),
    decreases tr.len(),
{
    vstd::arithmetic::div_mod::lemma_mod_bound(tr[0].pre as int, 0x1_0000_0000);
    if tr.len() == 1 {
        assert(count_issued(tr.drop_last()) == 0);
        assert(tr.last() == tr[0]);
        assert(step_consistent(tr[0]));
        match tr[0].issued {
            Some(_) => {
                lemma_wrap_inc_is_wrap_add(tr[0].pre);
            },
            None => {
                vstd::arithmetic::div_mod::lemma_small_mod(tr[0].pre as nat, 0x1_0000_0000);
            },
        }
    } else {
        let t = tr.drop_last();
        assert(trace_chained(t)) by {
            assert(forall|k: int| 0 <= k < t.len() ==> step_consistent(#[trigger] t[k]));
            assert(forall|k: int|
                0 <= k < t.len() - 1 ==> (#[trigger] t[k + 1]).pre == t[k].post);
        }
        lemma_chain_advance(t);
        let c = count_issued(t);
        assert(t[0] == tr[0]);
        assert(t[t.len() - 1] == tr[tr.len() - 2]);
        assert(tr[(tr.len() - 2) + 1].pre == tr[tr.len() - 2].post);
        assert(tr.last().pre == t.last().post);
        assert(step_consistent(tr.last())) by {
            assert(step_consistent(tr[tr.len() - 1]));
        }
        match tr.last().issued {
            Some(_) => {
                lemma_wrap_inc_is_wrap_add(tr.last().pre);
                lemma_wrap_add_step(tr[0].pre, c, 1);
            },
            None => {
                lemma_wrap_add_step(tr[0].pre, c, 0);
            },
        }
    }
}

proof fn lemma_count_issued_pos(tr: Seq<CounterStep>, k: int)
    requires
        0 <= k < tr.len(),
        tr[k].issued is Some,
    ensures
        count_issued(tr) >= 1,
    decreases tr.len(),
{
    if k == tr.len() - 1 {
    } else {
        assert(tr.drop_last()[k] == tr[k]);
        lemma_count_issued_pos(tr.drop_last(), k);
    }
}

/// Ids issued by the counter are fresh: in any chained trace, two distinct
/// issuing steps issue distinct ids, as long as fewer than 2^32 issues lie
/// between them.  A matchmaking lobby is therefore handed to a race session
/// at most once per lobby id, and a defused room-deletion ticket never
/// matches a ticket armed later.
pub proof fn lemma_issued_distinct(tr: Seq<CounterStep>, i: int, j: int)
    requires
        trace_chained(tr),
        0 <= i < j < tr.len(),
        tr[i].issued is Some,
        tr[j].issued is Some,
        count_issued(tr.subrange(i, j)) <= 0xFFFF_FFFF,
    ensures
        tr[i].issued != tr[j].issued,
{
    let sub = tr.subrange(i, j);
    assert(trace_chained(sub)) by {
        assert forall|k: int| 0 <= k < sub.len() implies step_consistent(#[trigger] sub[k]) by {
            assert(sub[k] == tr[i + k]);
            assert(step_consistent(tr[i + k]));
        }
        assert forall|k: int|
            0 <= k < sub.len() - 1 implies (#[trigger] sub[k + 1]).pre == sub[k].post by {
            assert(sub[k + 1] == tr[i + (k + 1)]);
            assert(sub[k] == tr[i + k]);
            assert(tr[(i + k) + 1].pre == tr[i + k].post);
        }
    }
    assert(sub[0] == tr[i]);
    lemma_count_issued_pos(sub, 0);
    lemma_chain_advance(sub);
    let c = count_issued(sub);
    assert(sub[sub.len() - 1] == tr[i + (sub.len() - 1)]);
    assert(sub.last() == tr[j - 1]);
    assert(tr[(j - 1) + 1].pre == tr[j - 1].post);
    assert(tr[j].pre == wrap_add(tr[i].pre, c));
    // with 1 <= c < 2^32 the wrapped sum cannot land back on the start
    let x = tr[i].pre as int;
    let m: int = 0x1_0000_0000;
    assert(1 <= c <= m - 1);
    if x + c < m {
        vstd::arithmetic::div_mod::lemma_small_mod((x + c) as nat, m as nat);
        assert(wrap_add(tr[i].pre, c) != tr[i].pre);
    } else {
        assert((x + c) % m == x + c - m) by {
            vstd::arithmetic::div_mod::lemma_mod_sub_multiples_vanish(x + c, m);
            vstd::arithmetic::div_mod::lemma_small_mod((x + c - m) as nat, m as nat);
        }
        assert(wrap_add(tr[i].pre, c) != tr[i].pre);
    }
    assert(step_consistent(tr[i]));
    assert(step_consistent(tr[j]));
}

} // verus!
