use vstd::prelude::*;

verus! {

/// The capacity reached from `cap` by doubling until it holds `need` slots.
pub open spec fn grown_capacity(cap: nat, need: nat) -> nat
    decreases
        (if cap < need {
            need - cap
        } else {
            0
        }),
{
    if cap == 0 || need <= cap {
        cap
    } else {
        grown_capacity(2 * cap, need)
    }
}

/// Whether `to` is `from` doubled some number of times.
pub open spec fn reaches(from: nat, to: nat) -> bool
    decreases to,
{
    to == from || (from < to && to % 2 == 0 && reaches(from, to / 2))
}

/// Doubling stops at a capacity that holds what is needed, and that
/// capacity is reached from the one it started at.
pub proof fn lemma_grown_holds(cap: nat, need: nat)
    requires
        cap > 0,
    ensures
        need <= grown_capacity(cap, need),
        cap <= grown_capacity(cap, need),
        reaches(cap, grown_capacity(cap, need)),
    decreases
        (if cap < need {
            need - cap
        } else {
            0
        }),
{
    if need > cap {
        lemma_grown_holds(2 * cap, need);
        lemma_reaches_from_half(cap, grown_capacity(2 * cap, need));
    }
}

/// What is reached from twice a capacity is reached from the capacity.
pub proof fn lemma_reaches_from_half(cap: nat, to: nat)
    requires
        cap > 0,
        reaches(2 * cap, to),
    ensures
        reaches(cap, to),
    decreases to,
{
    if to == 2 * cap {
        assert(reaches(cap, cap));
    } else {
        lemma_reaches_from_half(cap, to / 2);
    }
}

/// What is reached from a capacity, and is not that capacity, is reached
/// from twice the capacity.
pub proof fn lemma_reaches_from_double(cap: nat, to: nat)
    requires
        cap > 0,
        cap < to,
        reaches(cap, to),
    ensures
        reaches(2 * cap, to),
    decreases to,
{
    if to / 2 != cap {
        lemma_reaches_from_double(cap, to / 2);
    }
}

/// Doubling stops at the least capacity that holds what is needed: no
/// capacity reached from `cap` that holds `need` slots is smaller.
pub proof fn lemma_grown_least(cap: nat, need: nat, other: nat)
    requires
        cap > 0,
        reaches(cap, other),
        need <= other,
    ensures
        grown_capacity(cap, need) <= other,
    decreases
        (if cap < need {
            need - cap
        } else {
            0
        }),
{
    if need > cap {
        lemma_reaches_from_double(cap, other);
        lemma_grown_least(2 * cap, need, other);
    }
}

/// Growing for a need and then for a need no smaller ends where growing
/// for the second need alone ends.
pub proof fn lemma_grown_twice(cap: nat, first: nat, second: nat)
    requires
        cap > 0,
        first <= second,
    ensures
        grown_capacity(grown_capacity(cap, first), second) == grown_capacity(cap, second),
    decreases
        (if cap < first {
            first - cap
        } else {
            0
        }),
{
    if first > cap {
        lemma_grown_twice(2 * cap, first, second);
    }
}

/// Doubling that has to start stops below twice what is needed.
pub proof fn lemma_grown_bound(cap: nat, need: nat)
    requires
        0 < cap < need,
    ensures
        grown_capacity(cap, need) <= 2 * (need - 1),
    decreases need - cap,
{
    if 2 * cap < need {
        lemma_grown_bound(2 * cap, need);
    } else {
        assert(grown_capacity(2 * cap, need) == 2 * cap);
    }
}

/// A larger need never ends at a smaller capacity.
pub proof fn lemma_grown_monotonic(cap: nat, first: nat, second: nat)
    requires
        cap > 0,
        first <= second,
    ensures
        grown_capacity(cap, first) <= grown_capacity(cap, second),
{
    lemma_grown_holds(cap, first);
    lemma_grown_twice(cap, first, second);
    lemma_grown_holds(grown_capacity(cap, first), second);
}

} // verus!
