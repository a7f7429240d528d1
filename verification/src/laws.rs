use crate::growth::{
    grown_capacity, lemma_grown_bound, lemma_grown_holds, lemma_grown_least, lemma_grown_twice,
    reaches,
};
use crate::iter::{span_back, span_front, take_back, take_front};
use crate::raw::START_CAPACITY;
use vstd::prelude::*;

verus! {

/// The elements of an array that held `s` after `items` were pushed onto
/// it one by one.
pub open spec fn after_pushes<T>(s: Seq<T>, items: Seq<T>) -> Seq<T>
    decreases items.len(),
{
    if items.len() == 0 {
        s
    } else {
        after_pushes(s.push(items.first()), items.drop_first())
    }
}

/// The capacity of an array of `len` elements and capacity `cap` after
/// `count` pushes.
pub open spec fn capacity_after_pushes(cap: nat, len: nat, count: nat) -> nat
    decreases count,
{
    if count == 0 {
        cap
    } else {
        capacity_after_pushes(grown_capacity(cap, len + 1), len + 1, (count - 1) as nat)
    }
}

/// Pushes keep what was there and add the pushed elements behind it in the
/// order of the pushes.
pub proof fn law_pushes_in_order<T>(s: Seq<T>, items: Seq<T>)
    ensures
        after_pushes(s, items) == s + items,
        after_pushes(s, items).len() == s.len() + items.len(),
    decreases items.len(),
{
    if items.len() == 0 {
        assert(s + items =~= s);
    } else {
        law_pushes_in_order(s.push(items.first()), items.drop_first());
        assert(s.push(items.first()) + items.drop_first() =~= s + items);
    }
}

/// An array that starts empty holds exactly the pushed elements, in the
/// order of the pushes, and as many as there were pushes.
pub proof fn law_pushes_from_empty<T>(items: Seq<T>)
    ensures
        after_pushes(Seq::<T>::empty(), items) == items,
        after_pushes(Seq::<T>::empty(), items).len() == items.len(),
{
    law_pushes_in_order(Seq::<T>::empty(), items);
    assert(Seq::<T>::empty() + items =~= items);
}

/// After any number of pushes the capacity is the one reached by doubling
/// until all the elements fit.
pub proof fn law_pushes_capacity(cap: nat, len: nat, count: nat)
    requires
        0 < cap,
        len <= cap,
    ensures
        capacity_after_pushes(cap, len, count) == grown_capacity(cap, len + count),
    decreases count,
{
    if count > 0 {
        lemma_grown_holds(cap, len + 1);
        law_pushes_capacity(grown_capacity(cap, len + 1), len + 1, (count - 1) as nat);
        lemma_grown_twice(cap, len + 1, len + count);
    }
}

/// After `count` pushes onto a new array the capacity holds all the
/// elements, is the starting capacity doubled some number of times, and is
/// the least such capacity; once it has grown it is below twice the number
/// of elements.
pub proof fn law_capacity_from_start(count: nat)
    ensures
        capacity_after_pushes(START_CAPACITY as nat, 0, count) == grown_capacity(
            START_CAPACITY as nat,
            count,
        ),
        count <= grown_capacity(START_CAPACITY as nat, count),
        reaches(START_CAPACITY as nat, grown_capacity(START_CAPACITY as nat, count)),
        count > START_CAPACITY ==> grown_capacity(START_CAPACITY as nat, count) <= 2 * (count
            - 1),
        forall|other: nat|
            reaches(START_CAPACITY as nat, other) && count <= other ==> grown_capacity(
                START_CAPACITY as nat,
                count,
            ) <= other,
{
    law_pushes_capacity(START_CAPACITY as nat, 0, count);
    lemma_grown_holds(START_CAPACITY as nat, count);
    if count > START_CAPACITY {
        lemma_grown_bound(START_CAPACITY as nat, count);
    }
    assert forall|other: nat|
        reaches(START_CAPACITY as nat, other) && count <= other implies grown_capacity(
        START_CAPACITY as nat,
        count,
    ) <= other by {
        lemma_grown_least(START_CAPACITY as nat, count, other);
    }
}

/// A pop right after a push gives the pushed value back and leaves the
/// elements as they were before the push.
pub proof fn law_push_pop<T>(s: Seq<T>, value: T)
    ensures
        take_back(s.push(value)) == (Some(value), s),
{
    assert(s.push(value).drop_last() =~= s);
}

/// Removing at the index of an insertion gives the inserted value back and
/// leaves the elements as they were before the insertion.
pub proof fn law_insert_remove<T>(s: Seq<T>, index: int, value: T)
    requires
        0 <= index <= s.len(),
    ensures
        s.insert(index, value)[index] == value,
        s.insert(index, value).remove(index) == s,
        s.insert(index, value).remove(index).len() == s.len(),
{
    assert(s.insert(index, value).remove(index) =~= s);
}

/// An array that took the elements of another over has the length of both
/// together, starts with what it had and ends with what the other had.
pub proof fn law_append_tail<T>(own: Seq<T>, other: Seq<T>)
    ensures
        (own + other).len() == own.len() + other.len(),
        (own + other).take(own.len() as int) == own,
        (own + other).skip(own.len() as int) == other,
{
    assert((own + other).take(own.len() as int) =~= own);
    assert((own + other).skip(own.len() as int) =~= other);
}

/// The end of the remaining range that a step takes from.
pub enum End {
    Front,
    Back,
}

/// One step on the remaining elements, from the given end.
pub open spec fn take_at<T>(s: Seq<T>, side: End) -> (Option<T>, Seq<T>) {
    match side {
        End::Front => take_front(s),
        End::Back => take_back(s),
    }
}

/// One step on the remaining positions, from the given end.
pub open spec fn span_at(span: (nat, nat), side: End) -> (Option<nat>, (nat, nat)) {
    match side {
        End::Front => span_front(span),
        End::Back => span_back(span),
    }
}

/// What each of a run of steps hands out, starting with `s` remaining.
pub open spec fn handed_out<T>(s: Seq<T>, steps: Seq<End>) -> Seq<Option<T>>
    decreases steps.len(),
{
    if steps.len() == 0 {
        Seq::empty()
    } else {
        seq![take_at(s, steps.first()).0] + handed_out(
            take_at(s, steps.first()).1,
            steps.drop_first(),
        )
    }
}

/// The position that each of a run of steps takes, starting with the range
/// `span` remaining.
pub open spec fn positions_taken(span: (nat, nat), steps: Seq<End>) -> Seq<Option<nat>>
    decreases steps.len(),
{
    if steps.len() == 0 {
        Seq::empty()
    } else {
        seq![span_at(span, steps.first()).0] + positions_taken(
            span_at(span, steps.first()).1,
            steps.drop_first(),
        )
    }
}

/// Steps from the front alone hand the elements out in their order, one
/// per step, and nothing once each was handed out.
pub proof fn law_forward_traversal<T>(s: Seq<T>, steps: Seq<End>)
    requires
        forall|k: int| 0 <= k < steps.len() ==> steps[k] is Front,
    ensures
        handed_out(s, steps).len() == steps.len(),
        forall|k: int|
            0 <= k < steps.len() ==> #[trigger] handed_out(s, steps)[k] == (if k < s.len() {
                Some(s[k])
            } else {
                None
            }),
    decreases steps.len(),
{
    if steps.len() > 0 {
        let rest = take_at(s, steps.first()).1;
        assert(steps.first() == steps[0]);
        assert forall|k: int| 0 <= k < steps.drop_first().len() implies steps.drop_first()[k]
            is Front by {
            assert(steps.drop_first()[k] == steps[k + 1]);
        }
        law_forward_traversal(rest, steps.drop_first());
        assert forall|k: int| 0 <= k < steps.len() implies #[trigger] handed_out(s, steps)[k] == (
        if k < s.len() {
            Some(s[k])
        } else {
            None
        }) by {
            if k > 0 {
                assert(handed_out(s, steps)[k] == handed_out(rest, steps.drop_first())[k - 1]);
            }
        }
    }
}

/// Each step hands out the element at the position that it takes, counted
/// from the start of `whole`, where the elements remaining at first are
/// those of `whole` in the range `span`.
pub proof fn law_handed_out_by_position<T>(whole: Seq<T>, span: (nat, nat), steps: Seq<End>)
    requires
        span.0 <= span.1 <= whole.len(),
    ensures
        handed_out(whole.subrange(span.0 as int, span.1 as int), steps).len() == steps.len(),
        positions_taken(span, steps).len() == steps.len(),
        forall|k: int|
            0 <= k < steps.len() ==> #[trigger] handed_out(
                whole.subrange(span.0 as int, span.1 as int),
                steps,
            )[k] == (match positions_taken(span, steps)[k] {
                Some(p) => Some(whole[p as int]),
                None => None,
            }),
    decreases steps.len(),
{
    if steps.len() > 0 {
        let s = whole.subrange(span.0 as int, span.1 as int);
        let rest = take_at(s, steps.first()).1;
        let rest_span = span_at(span, steps.first()).1;
        assert(rest =~= whole.subrange(rest_span.0 as int, rest_span.1 as int));
        law_handed_out_by_position(whole, rest_span, steps.drop_first());
        assert forall|k: int| 0 <= k < steps.len() implies #[trigger] handed_out(s, steps)[k] == (
        match positions_taken(span, steps)[k] {
            Some(p) => Some(whole[p as int]),
            None => None,
        }) by {
            if k > 0 {
                assert(handed_out(s, steps)[k] == handed_out(rest, steps.drop_first())[k - 1]);
                assert(positions_taken(span, steps)[k] == positions_taken(
                    rest_span,
                    steps.drop_first(),
                )[k - 1]);
            }
        }
    }
}

/// Whatever ends the steps take from: a step takes a position as long as
/// one is left, so as many steps take one as the range had positions; each
/// position taken lies in the range; and no position is taken twice.
pub proof fn law_positions_taken_once(span: (nat, nat), steps: Seq<End>)
    requires
        span.0 <= span.1,
    ensures
        positions_taken(span, steps).len() == steps.len(),
        forall|k: int|
            0 <= k < steps.len() ==> ((#[trigger] positions_taken(span, steps)[k]) is Some <==> k
                < span.1 - span.0),
        forall|k: int|
            0 <= k < steps.len() ==> (match #[trigger] positions_taken(span, steps)[k] {
                Some(p) => span.0 <= p < span.1,
                None => true,
            }),
        forall|j: int, k: int|
            0 <= j < k < steps.len() && (#[trigger] positions_taken(span, steps)[j]) is Some ==> (
            #[trigger] positions_taken(span, steps)[k]) != positions_taken(span, steps)[j],
    decreases steps.len(),
{
    if steps.len() > 0 {
        let rest_span = span_at(span, steps.first()).1;
        let taken = positions_taken(span, steps);
        let later = positions_taken(rest_span, steps.drop_first());
        law_positions_taken_once(rest_span, steps.drop_first());
        assert(taken.len() == steps.len());
        assert forall|k: int| 0 < k < steps.len() implies #[trigger] taken[k] == later[k - 1] by {}
        assert forall|k: int| 0 <= k < steps.len() implies ((#[trigger] taken[k]) is Some <==> k
            < span.1 - span.0) by {
            if k > 0 {
                assert(taken[k] == later[k - 1]);
            }
        }
        assert forall|k: int| 0 <= k < steps.len() implies (match #[trigger] taken[k] {
            Some(p) => span.0 <= p < span.1,
            None => true,
        }) by {
            if k > 0 {
                assert(taken[k] == later[k - 1]);
            }
        }
        assert forall|j: int, k: int|
            0 <= j < k < steps.len() && (#[trigger] taken[j]) is Some implies (#[trigger] taken[k])
            != taken[j] by {
            assert(taken[k] == later[k - 1]);
            if j > 0 {
                assert(taken[j] == later[j - 1]);
            }
        }
    }
}

} // verus!
