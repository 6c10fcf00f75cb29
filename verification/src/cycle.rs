//! Finding an item in a list and stepping to the one after it, round and round.

use vstd::prelude::*;

verus! {

/// `at` is the first place in `items` at which `hit` holds.
pub open spec fn is_first<T>(items: Seq<T>, hit: spec_fn(T) -> bool, at: int) -> bool {
    &&& 0 <= at < items.len()
    &&& hit(items[at])
    &&& forall|before: int| 0 <= before < at ==> !hit(#[trigger] items[before])
}

/// `hit` holds nowhere in `items`.
pub open spec fn nowhere<T>(items: Seq<T>, hit: spec_fn(T) -> bool) -> bool {
    forall|at: int| 0 <= at < items.len() ==> !hit(#[trigger] items[at])
}

/// The first place in `items` at which `hit` holds, if there is one.
pub open spec fn first_position<T>(items: Seq<T>, hit: spec_fn(T) -> bool) -> Option<int> {
    if exists|at: int| is_first(items, hit, at) {
        Some(choose|at: int| is_first(items, hit, at))
    } else {
        None
    }
}

/// The test that an item is `wanted`.
pub open spec fn is_item<T>(wanted: T) -> spec_fn(T) -> bool {
    |item: T| item == wanted
}

/// The first place in `items` that holds `wanted`, if any does.
pub open spec fn position_of<T>(items: Seq<T>, wanted: T) -> Option<int> {
    first_position(items, is_item(wanted))
}

/// The place after `at` in a list of `len` items; after the last comes the first.
pub open spec fn place_after(at: int, len: int) -> int {
    (at + 1) % len
}

/// The place of the item that follows the first occurrence of `current` in
/// `items`, if `current` occurs there.
pub open spec fn next_place<T>(items: Seq<T>, current: T) -> Option<int> {
    match position_of(items, current) {
        Some(at) => Some(place_after(at, items.len() as int)),
        None => None,
    }
}

/// The item that follows the first occurrence of `current` in `items`, if
/// `current` occurs there.
pub open spec fn following<T>(items: Seq<T>, current: T) -> Option<T> {
    match next_place(items, current) {
        Some(next) => Some(items[next]),
        None => None,
    }
}

/// Where `steps` steps along `items` lead from `start`. A step from an item
/// that does not occur in `items` leads nowhere.
pub open spec fn after_steps<T>(items: Seq<T>, start: T, steps: nat) -> Option<T>
    decreases steps,
{
    if steps == 0 {
        Some(start)
    } else {
        match after_steps(items, start, (steps - 1) as nat) {
            Some(reached) => following(items, reached),
            None => None,
        }
    }
}

/// No item occurs twice in `items`.
pub open spec fn distinct<T>(items: Seq<T>) -> bool {
    forall|i: int, j: int|
        0 <= i < items.len() && 0 <= j < items.len() && i != j ==> items[i] != items[j]
}

/// A first place is the only first place.
pub proof fn lemma_first_is_position<T>(items: Seq<T>, hit: spec_fn(T) -> bool, at: int)
    requires
        is_first(items, hit, at),
    ensures
        first_position(items, hit) == Some(at),
{
    let chosen = choose|at: int| is_first(items, hit, at);
    assert(is_first(items, hit, chosen));
    if chosen < at {
        assert(!hit(items[chosen]));
    } else if at < chosen {
        assert(!hit(items[at]));
    }
}

/// Where nothing is hit there is no first place.
pub proof fn lemma_nowhere_no_position<T>(items: Seq<T>, hit: spec_fn(T) -> bool)
    requires
        nowhere(items, hit),
    ensures
        first_position(items, hit) is None,
{
    if exists|at: int| is_first(items, hit, at) {
        let at = choose|at: int| is_first(items, hit, at);
        assert(!hit(items[at]));
    }
}

/// A position that was found is a first place.
pub proof fn lemma_position_is_first<T>(items: Seq<T>, hit: spec_fn(T) -> bool)
    ensures
        match first_position(items, hit) {
            Some(at) => is_first(items, hit, at),
            None => nowhere(items, hit),
        },
{
    if first_position(items, hit) is None {
        assert forall|at: int| 0 <= at < items.len() implies !hit(#[trigger] items[at]) by {
            if hit(items[at]) {
                lemma_some_first(items, hit, at);
            }
        }
    }
}

/// An item that stands at `at` and nowhere before has its position there.
pub proof fn lemma_found<T>(items: Seq<T>, wanted: T, at: int)
    requires
        0 <= at < items.len(),
        items[at] == wanted,
        forall|before: int| 0 <= before < at ==> items[before] != wanted,
    ensures
        position_of(items, wanted) == Some(at),
{
    let hit = is_item(wanted);
    assert(is_first(items, hit, at));
    lemma_first_is_position(items, hit, at);
}

/// An item that stands nowhere has no position.
pub proof fn lemma_not_found<T>(items: Seq<T>, wanted: T)
    requires
        forall|at: int| 0 <= at < items.len() ==> items[at] != wanted,
    ensures
        position_of(items, wanted) is None,
{
    let hit = is_item(wanted);
    lemma_nowhere_no_position(items, hit);
}

/// What a position says of an item: it stands there, and nowhere before; and
/// where there is no position, it stands nowhere.
pub proof fn lemma_position_of<T>(items: Seq<T>, wanted: T)
    ensures
        match position_of(items, wanted) {
            Some(at) => {
                &&& 0 <= at < items.len()
                &&& items[at] == wanted
                &&& forall|before: int| 0 <= before < at ==> items[before] != wanted
            },
            None => !items.contains(wanted),
        },
{
    let hit = is_item(wanted);
    lemma_position_is_first(items, hit);
    match position_of(items, wanted) {
        Some(at) => {
            assert forall|before: int| 0 <= before < at implies items[before] != wanted by {
                assert(!hit(items[before]));
            }
        },
        None => {
            if items.contains(wanted) {
                let at = choose|at: int| 0 <= at < items.len() && items[at] == wanted;
                assert(!hit(items[at]));
            }
        },
    }
}

/// Where something is hit, something is hit first.
proof fn lemma_some_first<T>(items: Seq<T>, hit: spec_fn(T) -> bool, at: int)
    requires
        0 <= at < items.len(),
        hit(items[at]),
    ensures
        exists|first: int| is_first(items, hit, first),
    decreases at,
{
    if exists|before: int| 0 <= before < at && hit(#[trigger] items[before]) {
        let before = choose|before: int| 0 <= before < at && hit(#[trigger] items[before]);
        lemma_some_first(items, hit, before);
    } else {
        assert(is_first(items, hit, at));
    }
}

/// In a list without repetitions each item is found where it stands, and the
/// item that follows it is the next in the list, or the first after the last.
pub proof fn lemma_following_in_distinct<T>(items: Seq<T>, at: int)
    requires
        distinct(items),
        0 <= at < items.len(),
    ensures
        position_of(items, items[at]) == Some(at),
        following(items, items[at]) == Some(items[place_after(at, items.len() as int)]),
{
    let hit = is_item(items[at]);
    assert(is_first(items, hit, at));
    lemma_first_is_position(items, hit, at);
}

/// In a list without repetitions, `steps` steps from the item at `at` lead to
/// the item `steps` places further on, counted round the list.
pub proof fn lemma_steps_in_distinct<T>(items: Seq<T>, at: int, steps: nat)
    requires
        distinct(items),
        0 <= at < items.len(),
    ensures
        after_steps(items, items[at], steps) == Some(items[(at + steps) % (items.len() as int)]),
    decreases steps,
{
    let len = items.len() as int;
    if steps == 0 {
        assert(at % len == at) by (nonlinear_arith)
            requires
                0 <= at < len,
        ;
    } else {
        let before = (steps - 1) as nat;
        lemma_steps_in_distinct(items, at, before);
        let reached = (at + before) % len;
        assert(0 <= reached < len) by (nonlinear_arith)
            requires
                0 < len,
                reached == (at + before) % len,
        ;
        lemma_following_in_distinct(items, reached);
        assert((reached + 1) % len == (at + steps) % len) by (nonlinear_arith)
            requires
                0 < len,
                reached == (at + before) % len,
                steps == before + 1,
        ;
    }
}

/// Cycle closure: in a list without repetitions, as many steps as the list has
/// items lead from any of its items back to that item.
pub proof fn lemma_cycle_closes<T>(items: Seq<T>, at: int)
    requires
        distinct(items),
        0 <= at < items.len(),
    ensures
        after_steps(items, items[at], items.len()) == Some(items[at]),
{
    let len = items.len() as int;
    lemma_steps_in_distinct(items, at, items.len());
    assert((at + len) % len == at) by (nonlinear_arith)
        requires
            0 <= at < len,
    ;
}

} // verus!
