//! Finding the chokepoints of the current simulation: count how often each
//! lane and each intersection appears in the active agents' traced routes,
//! and keep the busiest few of each. Tracing the routes and the key
//! handling that toggles the display belong to the simulation and the user
//! interface; the counting and ranking is here.
//!
//! The occurrence counting leans on the `counter` crate: its `Counter` is
//! held behind a small trusted surface whose contracts name what the
//! counter holds as a multiset and its key set.

use vstd::multiset::Multiset;
use vstd::prelude::*;

use crate::ids::{IntersectionID, LaneID};

verus! {

/// How many top lanes and intersections to keep.
pub const TOP_N: usize = 10;

/// One turn inside an intersection; the trip core only reads which
/// intersection owns it.
#[derive(Clone, Copy, Debug, PartialEq, Eq, Structural)]
pub struct TurnID {
    pub parent: IntersectionID,
}

/// One step of a traced route: along a lane, or through a turn.
#[derive(Clone, Copy, Debug, PartialEq, Eq, Structural)]
pub enum Traversable {
    Lane(LaneID),
    Turn(TurnID),
}

/// Inactive, or highlighting the busiest lanes and intersections.
#[derive(Clone, Debug, PartialEq, Eq)]
pub enum ChokepointsFinder {
    Inactive,
    Active(Vec<LaneID>, Vec<IntersectionID>),
}

/// Declares the `counter` crate's `Counter` so that values of it can be
/// held and passed around; everything known about one is said by the
/// contracts below, over `counter_contents` and `counter_keys`.
#[verifier::external_type_specification]
#[verifier::external_body]
#[verifier::reject_recursive_types(T)]
#[verifier::reject_recursive_types(N)]
#[verifier::reject_recursive_types(S)]
pub struct ExCounter<T, N, S>(counter::Counter<T, N, S>);

/// What a counter holds: each key with its count as multiplicity.
pub uninterp spec fn counter_contents(c: counter::Counter<u64, u64>) -> Multiset<u64>;

/// The keys a counter has an entry for.
pub uninterp spec fn counter_keys(c: counter::Counter<u64, u64>) -> Set<u64>;

/// Relies on `Counter::new`: a fresh counter is empty, with no keys.
#[verifier::external_body]
fn counter_new() -> (c: counter::Counter<u64, u64>)
    ensures
        counter_contents(c) == Multiset::<u64>::empty(),
        counter_keys(c) == Set::<u64>::empty(),
        counter_keys(c).finite(),
{
    counter::Counter::new()
}

/// Relies on `Counter::update`: adding one item raises its count by one
/// and makes it a key. The count is a `u64`, so an item already counted
/// `u64::MAX` times is excluded rather than allowed to wrap.
#[verifier::external_body]
fn counter_add(c: &mut counter::Counter<u64, u64>, item: u64)
    requires
        counter_contents(*old(c)).count(item) < u64::MAX,
    ensures
        counter_contents(*final(c)) == counter_contents(*old(c)).insert(item),
        counter_keys(*final(c)) == counter_keys(*old(c)).insert(item),
        counter_keys(*old(c)).finite() ==> counter_keys(*final(c)).finite(),
{
    c.update([item]);
}

/// `l` lists each key of the counter exactly once with its count, most
/// common first, ties in increasing key order.
pub open spec fn ordered_count_list(l: Seq<(u64, u64)>, keys: Set<u64>, m: Multiset<u64>) -> bool {
    &&& l.len() == keys.len()
    &&& (forall|i: int|
        0 <= i < l.len() ==> keys.contains((#[trigger] l[i]).0) && l[i].1 == m.count(l[i].0))
    &&& (forall|k: u64| #[trigger] keys.contains(k) ==> exists|i: int| 0 <= i < l.len() && l[i].0 == k)
    &&& (forall|i: int, j: int|
        0 <= i < j < l.len() ==> ((#[trigger] l[i]).1 > (#[trigger] l[j]).1 || (l[i].1 == l[j].1
            && l[i].0 < l[j].0)))
}

/// Relies on `Counter::most_common_ordered`: every key paired with its
/// count, sorted most common first, ties in increasing key order.
#[verifier::external_body]
fn counter_most_common_ordered(c: &counter::Counter<u64, u64>) -> (r: Vec<(u64, u64)>)
    ensures
        ordered_count_list(r@, counter_keys(*c), counter_contents(*c)),
{
    c.most_common_ordered()
}

/// `ids` is the start of the most-common ranking of `all`: the busiest
/// distinct values, most common first (ties in increasing order), cut off
/// at `TOP_N`.
pub open spec fn spec_top_of(ids: Seq<u64>, all: Seq<u64>) -> bool {
    exists|l: Seq<(u64, u64)>|
        {
            &&& #[trigger] ordered_count_list(l, all.to_set(), all.to_multiset())
            &&& ids.len() == if l.len() < TOP_N {
                l.len() as int
            } else {
                TOP_N as int
            }
            &&& (forall|i: int| 0 <= i < ids.len() ==> ids[i] == (#[trigger] l[i]).0)
        }
}

/// The most common values of `items`, most common first, ties in
/// increasing order, at most `TOP_N` of them.
#[verifier::loop_isolation(false)]
fn top_most_common(items: &Vec<u64>) -> (r: Vec<u64>)
    ensures
        spec_top_of(r@, items@),
        forall|i: int| 0 <= i < r@.len() ==> items@.contains(#[trigger] r@[i]),
{
    let mut c: counter::Counter<u64, u64> = counter_new();
    let mut i: usize = 0;
    proof {
        assert(items@.take(0) =~= Seq::<u64>::empty());
        assert(Seq::<u64>::empty().to_multiset() =~= Multiset::<u64>::empty())
            by {
            broadcast use vstd::seq_lib::group_to_multiset_ensures;

        }
        assert(Seq::<u64>::empty().to_set() =~= Set::<u64>::empty());
    }
    while i < items.len()
        invariant
            i <= items@.len(),
            counter_contents(c) == items@.take(i as int).to_multiset(),
            counter_keys(c) == items@.take(i as int).to_set(),
            counter_keys(c).finite(),
            forall|k: u64| #[trigger] counter_contents(c).count(k) <= i,
        decreases items@.len() - i,
    {
        counter_add(&mut c, items[i]);
        proof {
            let prefix = items@.take(i as int);
            let x = items@[i as int];
            assert(items@.take(i + 1) =~= prefix.push(x));
            assert(prefix.push(x).to_multiset() =~= prefix.to_multiset().insert(x)) by {
                broadcast use vstd::seq_lib::group_to_multiset_ensures;

            }
            assert forall|a: u64| #[trigger]
                prefix.push(x).to_set().contains(a) <==> prefix.to_set().insert(x).contains(
                a,
            ) by {
                if prefix.push(x).contains(a) {
                    let idx = choose|idx: int|
                        0 <= idx < prefix.push(x).len() && prefix.push(x)[idx] == a;
                    if idx < prefix.len() {
                        assert(prefix[idx] == a);
                    }
                }
                if prefix.contains(a) {
                    let idx = choose|idx: int| 0 <= idx < prefix.len() && prefix[idx] == a;
                    assert(prefix.push(x)[idx] == a);
                }
                if a == x {
                    assert(prefix.push(x)[prefix.len() as int] == a);
                }
            }
            assert(prefix.push(x).to_set() =~= prefix.to_set().insert(x));
        }
        i += 1;
    }
    proof {
        assert(items@.take(items@.len() as int) =~= items@);
    }
    let ordered: Vec<(u64, u64)> = counter_most_common_ordered(&c);
    let limit: usize = if ordered.len() < TOP_N {
        ordered.len()
    } else {
        TOP_N
    };
    let mut r: Vec<u64> = Vec::new();
    let mut j: usize = 0;
    while j < limit
        invariant
            j <= limit,
            r@.len() == j,
            forall|t: int| 0 <= t < j ==> r@[t] == (#[trigger] ordered@[t]).0,
        decreases limit - j,
    {
        r.push(ordered[j].0);
        j += 1;
    }
    proof {
        assert(spec_top_of(r@, items@)) by {
            assert(ordered_count_list(ordered@, items@.to_set(), items@.to_multiset()));
        }
        assert forall|t: int| 0 <= t < r@.len() implies items@.contains(#[trigger] r@[t]) by {
            assert(items@.to_set().contains(ordered@[t].0));
        }
    }
    r
}

impl ChokepointsFinder {
    pub fn new() -> (r: ChokepointsFinder)
        ensures
            r == ChokepointsFinder::Inactive,
    {
        ChokepointsFinder::Inactive
    }
}

/// The lanes a list of route steps passes through, as raw keys, in order.
pub open spec fn lane_keys(segs: Seq<Traversable>) -> Seq<u64>
    decreases segs.len(),
{
    if segs.len() == 0 {
        Seq::empty()
    } else {
        let rest = lane_keys(segs.drop_last());
        match segs.last() {
            Traversable::Lane(id) => rest.push(id.0 as u64),
            Traversable::Turn(_) => rest,
        }
    }
}

/// The intersections a list of route steps turns through, as raw keys.
pub open spec fn intersection_keys(segs: Seq<Traversable>) -> Seq<u64>
    decreases segs.len(),
{
    if segs.len() == 0 {
        Seq::empty()
    } else {
        let rest = intersection_keys(segs.drop_last());
        match segs.last() {
            Traversable::Lane(_) => rest,
            Traversable::Turn(t) => rest.push(t.parent.0 as u64),
        }
    }
}

/// Rank the lanes and intersections of the given route steps by how often
/// they occur, and keep the busiest `TOP_N` of each: the state the
/// chokepoint display shows.
#[verifier::loop_isolation(false)]
pub fn find_chokepoints(segments: &Vec<Traversable>) -> (r: ChokepointsFinder)
    ensures
        r matches ChokepointsFinder::Active(lanes, intersections) ==> ({
            &&& spec_top_of(lanes@.map(|i: int, id: LaneID| id.0 as u64), lane_keys(segments@))
            &&& spec_top_of(
                intersections@.map(|i: int, id: IntersectionID| id.0 as u64),
                intersection_keys(segments@),
            )
        }),
        r is Active,
{
    let mut lane_items: Vec<u64> = Vec::new();
    let mut int_items: Vec<u64> = Vec::new();
    let mut i: usize = 0;
    proof {
        assert(segments@.take(0) =~= Seq::<Traversable>::empty());
    }
    while i < segments.len()
        invariant
            i <= segments@.len(),
            lane_items@ == lane_keys(segments@.take(i as int)),
            int_items@ == intersection_keys(segments@.take(i as int)),
            forall|t: int| 0 <= t < lane_items@.len() ==> #[trigger] lane_items@[t] <= usize::MAX,
            forall|t: int| 0 <= t < int_items@.len() ==> #[trigger] int_items@[t] <= usize::MAX,
        decreases segments@.len() - i,
    {
        proof {
            let prefix = segments@.take(i as int);
            assert(segments@.take(i + 1).drop_last() =~= prefix);
            assert(segments@.take(i + 1).last() == segments@[i as int]);
        }
        match segments[i] {
            Traversable::Lane(id) => {
                lane_items.push(id.0 as u64);
            },
            Traversable::Turn(t) => {
                int_items.push(t.parent.0 as u64);
            },
        }
        i += 1;
    }
    proof {
        assert(segments@.take(segments@.len() as int) =~= segments@);
    }
    let top_lanes: Vec<u64> = top_most_common(&lane_items);
    let top_ints: Vec<u64> = top_most_common(&int_items);
    let mut lanes: Vec<LaneID> = Vec::new();
    let mut j: usize = 0;
    while j < top_lanes.len()
        invariant
            j <= top_lanes@.len(),
            lanes@.len() == j,
            forall|t: int| 0 <= t < j ==> (#[trigger] lanes@[t]).0 as u64 == top_lanes@[t],
        decreases top_lanes@.len() - j,
    {
        proof {
            assert(lane_items@.contains(top_lanes@[j as int]));
        }
        lanes.push(LaneID(top_lanes[j] as usize));
        j += 1;
    }
    let mut intersections: Vec<IntersectionID> = Vec::new();
    let mut j: usize = 0;
    while j < top_ints.len()
        invariant
            j <= top_ints@.len(),
            intersections@.len() == j,
            forall|t: int| 0 <= t < j ==> (#[trigger] intersections@[t]).0 as u64 == top_ints@[t],
        decreases top_ints@.len() - j,
    {
        proof {
            assert(int_items@.contains(top_ints@[j as int]));
        }
        intersections.push(IntersectionID(top_ints[j] as usize));
        j += 1;
    }
    proof {
        assert(lanes@.map(|t: int, id: LaneID| id.0 as u64) =~= top_lanes@);
        assert(intersections@.map(|t: int, id: IntersectionID| id.0 as u64) =~= top_ints@);
    }
    ChokepointsFinder::Active(lanes, intersections)
}

} // verus!
