//! The display order: every anchor once, in the order in which a preview
//! walks through the cycle.

use vstd::prelude::*;
use crate::metadata::{Anchor, Metadata};
use crate::selection::{before, lemma_selected_applies, select_anchor, selected};

verus! {

/// The anchor at which the walk starts: the one that applies at `start`, or
/// none where no moment is given or there is no anchor. Without one the walk
/// starts at the earliest anchor.
pub open spec fn pivot_of(anchors: Seq<Anchor>, start: Option<int>) -> Option<int> {
    match start {
        Some(now) => if anchors.len() > 0 {
            Some(selected(anchors, now))
        } else {
            None
        },
        None => None,
    }
}

/// A walk that starts at `pivot` reaches anchor `a` only after it has wrapped
/// round the end of the cycle.
pub open spec fn wraps(anchors: Seq<Anchor>, pivot: Option<int>, a: int) -> bool {
    pivot.is_some() && before(anchors, a, pivot.unwrap())
}

/// A walk that starts at `pivot` reaches anchor `a` before anchor `b`.
pub open spec fn cycle_before(anchors: Seq<Anchor>, pivot: Option<int>, a: int, b: int) -> bool {
    let a_wraps = wraps(anchors, pivot, a);
    let b_wraps = wraps(anchors, pivot, b);
    (!a_wraps && b_wraps) || (a_wraps == b_wraps && before(anchors, a, b))
}

/// `order` names anchor `i` at one of its places.
pub open spec fn names(order: Seq<usize>, i: int) -> bool {
    exists|k: int| 0 <= k < order.len() && #[trigger] order[k] as int == i
}

/// `order` is the walk from `pivot` through the whole cycle: it names every
/// anchor, none twice, each before those that the walk reaches later.
pub open spec fn is_cycle(anchors: Seq<Anchor>, pivot: Option<int>, order: Seq<usize>) -> bool {
    &&& order.len() == anchors.len()
    &&& forall|k: int| 0 <= k < order.len() ==> (#[trigger] order[k]) < anchors.len()
    &&& forall|i: int| 0 <= i < anchors.len() ==> #[trigger] names(order, i)
    &&& forall|a: int, b: int|
        0 <= a < b < order.len() ==> cycle_before(
            anchors,
            pivot,
            #[trigger] order[a] as int,
            #[trigger] order[b] as int,
        )
}

/// The frames of the anchors that `order` names, in that order.
pub open spec fn frames_along(anchors: Seq<Anchor>, order: Seq<usize>) -> Seq<usize> {
    Seq::new(order.len(), |k: int| anchors[order[k] as int].frame)
}

/// `frames` is the display order of `metadata` for a walk that starts at the
/// moment `start`. Appearance metadata has no timeline: its order is fixed,
/// the light frame and then the dark one.
pub open spec fn is_display_order(
    metadata: Metadata,
    start: Option<int>,
    frames: Seq<usize>,
) -> bool {
    match metadata {
        Metadata::Appearance(pair) => frames == seq![pair.light, pair.dark],
        _ => exists|order: Seq<usize>|
            #[trigger] is_cycle(
                metadata.anchors(),
                pivot_of(metadata.anchors(), start),
                order,
            ) && frames == frames_along(metadata.anchors(), order),
    }
}

/// The frame that a looping preview shows at its `step`-th step.
pub open spec fn frame_at_step(frames: Seq<usize>, step: int) -> usize
    recommends
        frames.len() > 0,
        step >= 0,
{
    frames[step % (frames.len() as int)]
}

/// The moment at which a walk starts, as the spec functions take it.
pub open spec fn moment(start: Option<i64>) -> Option<int> {
    match start {
        Some(now) => Some(now as int),
        None => None,
    }
}

/// The exec pivot as the spec functions take it.
pub open spec fn pivot_index(pivot: Option<usize>) -> Option<int> {
    match pivot {
        Some(p) => Some(p as int),
        None => None,
    }
}

/// There is only one walk from a given pivot.
pub proof fn lemma_cycle_unique(
    anchors: Seq<Anchor>,
    pivot: Option<int>,
    first: Seq<usize>,
    second: Seq<usize>,
)
    requires
        is_cycle(anchors, pivot, first),
        is_cycle(anchors, pivot, second),
    ensures
        first == second,
{
    lemma_cycle_agree(anchors, pivot, first, second, first.len() as int);
    assert(first =~= second);
}

/// Two walks from one pivot agree on their first `n` places.
proof fn lemma_cycle_agree(
    anchors: Seq<Anchor>,
    pivot: Option<int>,
    first: Seq<usize>,
    second: Seq<usize>,
    n: int,
)
    requires
        is_cycle(anchors, pivot, first),
        is_cycle(anchors, pivot, second),
        0 <= n <= first.len(),
    ensures
        forall|k: int| 0 <= k < n ==> first[k] == second[k],
    decreases n,
{
    if n > 0 {
        lemma_cycle_agree(anchors, pivot, first, second, n - 1);
        let k = n - 1;
        let x = first[k];
        let y = second[k];
        if x != y {
            assert(names(second, x as int));
            let m = choose|m: int| 0 <= m < second.len() && #[trigger] second[m] as int == x as int;
            assert(names(first, y as int));
            let l = choose|l: int| 0 <= l < first.len() && #[trigger] first[l] as int == y as int;
            if m < k {
                assert(cycle_before(anchors, pivot, first[m] as int, first[k] as int));
            } else {
                assert(cycle_before(anchors, pivot, second[k] as int, second[m] as int));
                if l < k {
                    assert(cycle_before(anchors, pivot, second[l] as int, second[k] as int));
                } else {
                    assert(cycle_before(anchors, pivot, first[k] as int, first[l] as int));
                }
            }
        }
    }
}

/// A walk begins at its pivot.
pub proof fn lemma_cycle_starts_at_pivot(anchors: Seq<Anchor>, pivot: int, order: Seq<usize>)
    requires
        0 <= pivot < anchors.len(),
        is_cycle(anchors, Some(pivot), order),
    ensures
        order[0] == pivot,
{
    assert(names(order, pivot));
    let k = choose|k: int| 0 <= k < order.len() && #[trigger] order[k] as int == pivot;
    if k > 0 {
        assert(cycle_before(anchors, Some(pivot), order[0] as int, order[k] as int));
    }
}

/// The display order shows the frame of every anchor; where a moment is
/// given it starts with the frame that applies then; it has one step for each
/// anchor, so a preview that loops is back at its first frame after one full
/// traversal. For appearance metadata it shows the light and the dark frame.
pub proof fn lemma_display_order_full_cycle(
    metadata: Metadata,
    start: Option<int>,
    frames: Seq<usize>,
)
    requires
        is_display_order(metadata, start, frames),
    ensures
        forall|i: int|
            0 <= i < metadata.anchors().len() ==> frames.contains(
                (#[trigger] metadata.anchors()[i]).frame,
            ),
        match metadata {
            Metadata::Appearance(pair) => frames.len() == 2 && frames.contains(pair.light)
                && frames.contains(pair.dark),
            _ => frames.len() == metadata.anchors().len(),
        },
        start.is_some() && metadata.anchors().len() > 0 ==> frames[0]
            == metadata.anchors()[selected(metadata.anchors(), start.unwrap())].frame,
        frames.len() > 0 ==> frame_at_step(frames, frames.len() as int) == frame_at_step(frames, 0),
{
    let anchors = metadata.anchors();
    match metadata {
        Metadata::Appearance(pair) => {
            assert(frames[0] == pair.light);
            assert(frames[1] == pair.dark);
        },
        _ => {
            let pivot = pivot_of(anchors, start);
            let order = choose|order: Seq<usize>| #[trigger]
                is_cycle(anchors, pivot, order) && frames == frames_along(anchors, order);
            assert forall|i: int| 0 <= i < anchors.len() implies frames.contains(
                (#[trigger] anchors[i]).frame,
            ) by {
                assert(names(order, i));
                let k = choose|k: int| 0 <= k < order.len() && #[trigger] order[k] as int == i;
                assert(frames[k] == anchors[i].frame);
            }
            if start.is_some() && anchors.len() > 0 {
                lemma_selected_applies(anchors, start.unwrap());
                lemma_cycle_starts_at_pivot(anchors, pivot.unwrap(), order);
            }
        },
    }
    if frames.len() > 0 {
        let n = frames.len() as int;
        assert(n % n == 0) by (nonlinear_arith)
            requires
                n > 0,
        ;
        assert(0int % n == 0) by (nonlinear_arith)
            requires
                n > 0,
        ;
    }
}

/// The display order shows only frames that the metadata refers to, so it
/// keeps every bound that the metadata keeps.
pub proof fn lemma_display_order_within(
    metadata: Metadata,
    start: Option<int>,
    frames: Seq<usize>,
    count: int,
)
    requires
        is_display_order(metadata, start, frames),
        metadata.within(count),
    ensures
        forall|k: int| 0 <= k < frames.len() ==> (#[trigger] frames[k]) < count,
{
    let anchors = metadata.anchors();
    match metadata {
        Metadata::Appearance(pair) => {},
        _ => {
            let order = choose|order: Seq<usize>| #[trigger]
                is_cycle(anchors, pivot_of(anchors, start), order) && frames == frames_along(
                    anchors,
                    order,
                );
            assert forall|k: int| 0 <= k < frames.len() implies (#[trigger] frames[k]) < count by {
                assert(order[k] < anchors.len());
                assert(anchors[order[k] as int].frame < count);
            }
        },
    }
}

/// Does anchor `a` come before anchor `b` in one cycle?
fn comes_before(anchors: &Vec<Anchor>, a: usize, b: usize) -> (r: bool)
    requires
        a < anchors@.len(),
        b < anchors@.len(),
    ensures
        r == before(anchors@, a as int, b as int),
{
    let x: i64 = anchors[a].at;
    let y: i64 = anchors[b].at;
    x < y || (x == y && a < b)
}

/// Does a walk from `pivot` reach anchor `a` before anchor `b`?
fn reaches_before(anchors: &Vec<Anchor>, pivot: Option<usize>, a: usize, b: usize) -> (r: bool)
    requires
        a < anchors@.len(),
        b < anchors@.len(),
        pivot.is_some() ==> pivot.unwrap() < anchors@.len(),
    ensures
        r == cycle_before(anchors@, pivot_index(pivot), a as int, b as int),
{
    let a_wraps: bool = match pivot {
        Some(p) => comes_before(anchors, a, p),
        None => false,
    };
    let b_wraps: bool = match pivot {
        Some(p) => comes_before(anchors, b, p),
        None => false,
    };
    (!a_wraps && b_wraps) || (a_wraps == b_wraps && comes_before(anchors, a, b))
}

/// The walk from `pivot` through the whole cycle, each anchor named by its
/// place in the declaration; without a pivot, from the earliest anchor.
pub fn anchor_cycle(anchors: &Vec<Anchor>, pivot: Option<usize>) -> (order: Vec<usize>)
    requires
        pivot.is_some() ==> pivot.unwrap() < anchors@.len(),
    ensures
        is_cycle(anchors@, pivot_index(pivot), order@),
{
    let n: usize = anchors.len();
    let ghost start = pivot_index(pivot);
    let mut order: Vec<usize> = Vec::new();
    let mut i: usize = 0;
    while i < n
        invariant
            n == anchors@.len(),
            i <= n,
            pivot.is_some() ==> pivot.unwrap() < n,
            start == pivot_index(pivot),
            order@.len() == i,
            forall|k: int| 0 <= k < i ==> (#[trigger] order@[k]) < i,
            forall|j: int| 0 <= j < i ==> #[trigger] names(order@, j),
            forall|a: int, b: int|
                0 <= a < b < i ==> cycle_before(
                    anchors@,
                    start,
                    #[trigger] order@[a] as int,
                    #[trigger] order@[b] as int,
                ),
        decreases n - i,
    {
        let mut place: usize = 0;
        while place < i && reaches_before(anchors, pivot, order[place], i)
            invariant
                n == anchors@.len(),
                i < n,
                pivot.is_some() ==> pivot.unwrap() < n,
                start == pivot_index(pivot),
                order@.len() == i,
                place <= i,
                forall|k: int| 0 <= k < i ==> (#[trigger] order@[k]) < i,
                forall|k: int|
                    0 <= k < place ==> cycle_before(
                        anchors@,
                        start,
                        #[trigger] order@[k] as int,
                        i as int,
                    ),
            decreases i - place,
        {
            place += 1;
        }
        let ghost earlier = order@;
        order.insert(place, i);
        proof {
            assert(order@ == earlier.insert(place as int, i));
            assert forall|k: int| 0 <= k < i + 1 implies (#[trigger] order@[k]) < i + 1 by {
                if k < place {
                    assert(order@[k] == earlier[k]);
                } else if k > place {
                    assert(order@[k] == earlier[k - 1]);
                }
            }
            assert forall|j: int| 0 <= j < i + 1 implies #[trigger] names(order@, j) by {
                if j == i {
                    assert(order@[place as int] as int == j);
                } else {
                    assert(names(earlier, j));
                    let k = choose|k: int|
                        0 <= k < earlier.len() && #[trigger] earlier[k] as int == j;
                    if k < place {
                        assert(order@[k] as int == j);
                    } else {
                        assert(order@[k + 1] as int == j);
                    }
                }
            }
            assert forall|a: int, b: int| 0 <= a < b < i + 1 implies cycle_before(
                anchors@,
                start,
                #[trigger] order@[a] as int,
                #[trigger] order@[b] as int,
            ) by {
                let from = if a < place { a } else { a - 1 };
                let to = if b < place { b } else { b - 1 };
                if a == place {
                    // The new anchor stands before what the search stopped at,
                    // hence before all that follows it.
                    assert(order@[b] == earlier[to]);
                    assert(earlier[place as int] < i);
                    assert(cycle_before(anchors@, start, i as int, earlier[place as int] as int));
                    if to > place {
                        assert(cycle_before(
                            anchors@,
                            start,
                            earlier[place as int] as int,
                            earlier[to] as int,
                        ));
                    }
                } else if b == place {
                    assert(order@[a] == earlier[a]);
                } else {
                    assert(order@[a] == earlier[from]);
                    assert(order@[b] == earlier[to]);
                }
            }
        }
        i += 1;
    }
    order
}

/// The display order of `metadata` for a preview that starts at the moment
/// `start`, a position on the metadata's own axis: the frame that applies at
/// `start` first, then each anchor's frame as the cycle reaches it. Without a
/// moment the order starts at the earliest anchor. Appearance metadata gives
/// the light frame, then the dark one.
pub fn display_order(metadata: &Metadata, start: Option<i64>) -> (frames: Vec<usize>)
    ensures
        is_display_order(
            *metadata,
            moment(start),
            frames@,
        ),
{
    match metadata {
        Metadata::Appearance(pair) => {
            let mut frames: Vec<usize> = Vec::new();
            frames.push(pair.light);
            frames.push(pair.dark);
            assert(frames@ =~= seq![pair.light, pair.dark]);
            frames
        },
        Metadata::H24 { anchors, .. } => timed_order(anchors, start),
        Metadata::Solar { anchors, .. } => timed_order(anchors, start),
    }
}

/// The frames of `anchors` along the walk that starts at the moment `start`.
fn timed_order(anchors: &Vec<Anchor>, start: Option<i64>) -> (frames: Vec<usize>)
    ensures
        exists|order: Seq<usize>|
            #[trigger] is_cycle(
                anchors@,
                pivot_of(
                    anchors@,
                    moment(start),
                ),
                order,
            ) && frames@ == frames_along(anchors@, order),
{
    let pivot: Option<usize> = match start {
        Some(now) => select_anchor(anchors, now),
        None => None,
    };
    let order: Vec<usize> = anchor_cycle(anchors, pivot);
    let mut frames: Vec<usize> = Vec::new();
    let mut k: usize = 0;
    while k < order.len()
        invariant
            k <= order@.len(),
            frames@.len() == k,
            forall|j: int| 0 <= j < order@.len() ==> (#[trigger] order@[j]) < anchors@.len(),
            forall|j: int| 0 <= j < k ==> frames@[j] == anchors@[order@[j] as int].frame,
        decreases order@.len() - k,
    {
        frames.push(anchors[order[k]].frame);
        k += 1;
    }
    proof {
        assert(frames@ =~= frames_along(anchors@, order@));
        assert(pivot_index(pivot) == pivot_of(
            anchors@,
            moment(start),
        ));
    }
    frames
}

} // verus!
