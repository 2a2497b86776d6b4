//! Road edits: changing or deleting one lane of a road, subject to the
//! rules that keep a road's lane layout legal. Sidewalks are fixed, a lane
//! change must actually change something, and the resulting layout may not
//! put two parking lanes side by side or two sidewalks on one side.

use std::collections::BTreeMap;

use vstd::prelude::*;

use crate::ids::{LaneID, RoadID};

verus! {

broadcast use
    vstd::std_specs::btree::group_btree_axioms,
    vstd::laws_cmp::group_laws_cmp;

/// The purposes a road can serve lane by lane.
#[derive(Clone, Copy, Debug, PartialEq, Eq, Structural)]
pub enum LaneType {
    Driving,
    Parking,
    Sidewalk,
    Biking,
}

/// One lane of a road.
#[derive(Clone, Copy, Debug, PartialEq, Eq, Structural)]
pub struct Lane {
    pub id: LaneID,
    pub lane_type: LaneType,
}

/// A road: its lanes in each direction, ordered from the center line
/// outward.
#[derive(Clone, Debug)]
pub struct Road {
    pub id: RoadID,
    pub forwards: Vec<Lane>,
    pub backwards: Vec<Lane>,
}

/// Why an edit was made.
#[derive(Clone, Copy, Debug, PartialEq, Eq, Structural)]
pub enum EditReason {
    BasemapWrong,
    Hypothetical,
}

/// One road's edited lane layout.
#[derive(Clone, Debug)]
pub struct RoadEdit {
    pub road: RoadID,
    pub forwards_lanes: Vec<LaneType>,
    pub backwards_lanes: Vec<LaneType>,
    pub reason: EditReason,
}

/// Does some lane in the list have this id?
pub open spec fn lanes_contain(lanes: Seq<Lane>, id: LaneID) -> bool {
    exists|i: int| 0 <= i < lanes.len() && (#[trigger] lanes[i]).id == id
}

/// The index of the lane with this id; the one index, when ids are unique.
pub open spec fn lane_index_of(lanes: Seq<Lane>, id: LaneID) -> int {
    choose|i: int| 0 <= i < lanes.len() && (#[trigger] lanes[i]).id == id
}

/// Just the types of a list of lanes, in order.
pub open spec fn lane_types_of(lanes: Seq<Lane>) -> Seq<LaneType> {
    lanes.map(|i: int, l: Lane| l.lane_type)
}

/// How many sidewalk lanes a layout has.
pub open spec fn spec_sidewalk_count(lanes: Seq<LaneType>) -> int {
    lanes.filter(|l: LaneType| l == LaneType::Sidewalk).len() as int
}

/// Two parking lanes sit side by side at offset `i`.
pub open spec fn spec_adjacent_parking(lanes: Seq<LaneType>, i: int) -> bool {
    lanes[i] == LaneType::Parking && lanes[i + 1] == LaneType::Parking
}

/// A legal lane layout for one side of a road: no two parking lanes side
/// by side, and at most one sidewalk.
pub open spec fn spec_lanes_valid(lanes: Seq<LaneType>) -> bool {
    &&& forall|i: int| 0 <= i < lanes.len() - 1 ==> !(#[trigger] spec_adjacent_parking(lanes, i))
    &&& spec_sidewalk_count(lanes) <= 1
}

impl Road {
    /// Lane ids are unique across the whole road.
    pub open spec fn wf(self) -> bool {
        &&& forall|i: int, j: int|
            0 <= i < self.forwards@.len() && 0 <= j < self.forwards@.len() && i != j ==> (
            #[trigger] self.forwards@[i]).id != (#[trigger] self.forwards@[j]).id
        &&& forall|i: int, j: int|
            0 <= i < self.backwards@.len() && 0 <= j < self.backwards@.len() && i != j ==> (
            #[trigger] self.backwards@[i]).id != (#[trigger] self.backwards@[j]).id
        &&& forall|i: int, j: int|
            0 <= i < self.forwards@.len() && 0 <= j < self.backwards@.len() ==> (
            #[trigger] self.forwards@[i]).id != (#[trigger] self.backwards@[j]).id
    }

    /// Does this road own the lane?
    pub open spec fn has_lane(self, id: LaneID) -> bool {
        lanes_contain(self.forwards@, id) || lanes_contain(self.backwards@, id)
    }

    /// The lane the road stores under this id agrees with `lane`.
    pub open spec fn lane_consistent(self, lane: Lane) -> bool {
        &&& forall|i: int|
            0 <= i < self.forwards@.len() && (#[trigger] self.forwards@[i]).id == lane.id
                ==> self.forwards@[i].lane_type == lane.lane_type
        &&& forall|i: int|
            0 <= i < self.backwards@.len() && (#[trigger] self.backwards@[i]).id == lane.id
                ==> self.backwards@[i].lane_type == lane.lane_type
    }

    /// Which side a lane is on, and its offset on that side.
    pub fn dir_and_offset(&self, lane: LaneID) -> (r: (bool, usize))
        requires
            self.wf(),
            self.has_lane(lane),
        ensures
            r.0 == lanes_contain(self.forwards@, lane),
            r.0 ==> r.1 == lane_index_of(self.forwards@, lane) && self.forwards@[r.1 as int].id
                == lane,
            !r.0 ==> r.1 == lane_index_of(self.backwards@, lane) && self.backwards@[r.1 as int].id
                == lane,
    {
        let mut i: usize = 0;
        while i < self.forwards.len()
            invariant
                self.wf(),
                i <= self.forwards@.len(),
                forall|j: int| 0 <= j < i ==> (#[trigger] self.forwards@[j]).id != lane,
            decreases self.forwards@.len() - i,
        {
            if self.forwards[i].id == lane {
                proof {
                    assert(lanes_contain(self.forwards@, lane));
                    let k = lane_index_of(self.forwards@, lane);
                    assert(self.forwards@[k].id == lane);
                    assert(k == i);
                }
                return (true, i);
            }
            i += 1;
        }
        proof {
            assert(!lanes_contain(self.forwards@, lane));
        }
        let mut i: usize = 0;
        while i < self.backwards.len()
            invariant
                self.wf(),
                i <= self.backwards@.len(),
                forall|j: int| 0 <= j < i ==> (#[trigger] self.backwards@[j]).id != lane,
                !lanes_contain(self.forwards@, lane),
            decreases self.backwards@.len() - i,
        {
            if self.backwards[i].id == lane {
                proof {
                    assert(lanes_contain(self.backwards@, lane));
                    let k = lane_index_of(self.backwards@, lane);
                    assert(self.backwards@[k].id == lane);
                    assert(k == i);
                }
                return (false, i);
            }
            i += 1;
        }
        proof {
            assert(!lanes_contain(self.backwards@, lane));
            assert(false);
        }
        (false, 0)
    }

    /// The lane types of both sides, in order.
    pub fn get_lane_types(&self) -> (r: (Vec<LaneType>, Vec<LaneType>))
        ensures
            r.0@ == lane_types_of(self.forwards@),
            r.1@ == lane_types_of(self.backwards@),
    {
        (lane_types_vec(&self.forwards), lane_types_vec(&self.backwards))
    }
}

/// Copy out the types of a list of lanes.
fn lane_types_vec(lanes: &Vec<Lane>) -> (r: Vec<LaneType>)
    ensures
        r@ == lane_types_of(lanes@),
{
    let mut out: Vec<LaneType> = Vec::new();
    let mut i: usize = 0;
    while i < lanes.len()
        invariant
            i <= lanes@.len(),
            out@ == lane_types_of(lanes@.subrange(0, i as int)),
        decreases lanes@.len() - i,
    {
        out.push(lanes[i].lane_type);
        proof {
            assert(lane_types_of(lanes@.subrange(0, i + 1)) =~= lane_types_of(
                lanes@.subrange(0, i as int),
            ).push(lanes@[i as int].lane_type));
        }
        i += 1;
    }
    proof {
        assert(lanes@.subrange(0, lanes@.len() as int) =~= lanes@);
    }
    out
}

/// Is this layout legal? No two parking lanes side by side, at most one
/// sidewalk on a side.
pub fn are_lanes_valid(lanes: &Vec<LaneType>) -> (b: bool)
    ensures
        b == spec_lanes_valid(lanes@),
{
    let n: usize = lanes.len();
    let mut i: usize = 0;
    while i + 1 < n
        invariant
            n == lanes@.len(),
            i <= n,
            i == 0 || i + 1 <= n,
            forall|j: int| 0 <= j < i ==> !(#[trigger] spec_adjacent_parking(lanes@, j)),
        decreases n - i,
    {
        if lanes[i] == LaneType::Parking && lanes[i + 1] == LaneType::Parking {
            proof {
                assert(spec_adjacent_parking(lanes@, i as int));
            }
            return false;
        }
        i += 1;
    }
    let mut count: usize = 0;
    let mut k: usize = 0;
    proof {
        assert(lanes@.subrange(0, 0).filter(|l: LaneType| l == LaneType::Sidewalk) =~= Seq::<
            LaneType,
        >::empty());
    }
    while k < n
        invariant
            n == lanes@.len(),
            k <= n,
            count == spec_sidewalk_count(lanes@.subrange(0, k as int)),
            count <= k,
        decreases n - k,
    {
        proof {
            let prefix = lanes@.subrange(0, k as int);
            let next = lanes@.subrange(0, k + 1);
            assert(next.drop_last() =~= prefix);
            reveal_with_fuel(Seq::filter, 2);
            assert(next.filter(|l: LaneType| l == LaneType::Sidewalk)
                == if next.last() == LaneType::Sidewalk {
                prefix.filter(|l: LaneType| l == LaneType::Sidewalk).push(next.last())
            } else {
                prefix.filter(|l: LaneType| l == LaneType::Sidewalk)
            });
        }
        if lanes[k] == LaneType::Sidewalk {
            count += 1;
        }
        k += 1;
    }
    proof {
        assert(lanes@.subrange(0, n as int) =~= lanes@);
    }
    count <= 1
}

/// May this lane's type be changed to `new_type`? Sidewalks are fixed, the
/// change must be real, and the resulting side layout must stay legal.
pub open spec fn spec_change_allowed(road: Road, lane: Lane, new_type: LaneType) -> bool {
    &&& lane.lane_type != LaneType::Sidewalk
    &&& lane.lane_type != new_type
    &&& (if lanes_contain(road.forwards@, lane.id) {
        spec_lanes_valid(
            lane_types_of(road.forwards@).update(
                lane_index_of(road.forwards@, lane.id),
                new_type,
            ),
        )
    } else {
        spec_lanes_valid(
            lane_types_of(road.backwards@).update(
                lane_index_of(road.backwards@, lane.id),
                new_type,
            ),
        )
    })
}

impl RoadEdit {
    /// Change one lane's type, if the rules allow it: the edited layout
    /// for the whole road, or nothing.
    pub fn change_lane_type(
        reason: EditReason,
        road: &Road,
        lane: &Lane,
        new_type: LaneType,
    ) -> (r: Option<RoadEdit>)
        requires
            road.wf(),
            road.has_lane(lane.id),
            road.lane_consistent(*lane),
        ensures
            r is Some <==> spec_change_allowed(*road, *lane, new_type),
            r matches Some(e) ==> ({
                &&& e.road == road.id
                &&& e.reason == reason
                &&& (lanes_contain(road.forwards@, lane.id) ==> e.forwards_lanes@ == lane_types_of(
                    road.forwards@,
                ).update(lane_index_of(road.forwards@, lane.id), new_type)
                    && e.backwards_lanes@ == lane_types_of(road.backwards@))
                &&& (!lanes_contain(road.forwards@, lane.id) ==> e.backwards_lanes@
                    == lane_types_of(road.backwards@).update(
                    lane_index_of(road.backwards@, lane.id),
                    new_type,
                ) && e.forwards_lanes@ == lane_types_of(road.forwards@))
            }),
    {
        // Sidewalks are fixed.
        if lane.lane_type == LaneType::Sidewalk {
            return None;
        }
        let (forwards, backwards): (Vec<LaneType>, Vec<LaneType>) = road.get_lane_types();
        let mut forwards = forwards;
        let mut backwards = backwards;
        let (is_fwd, idx): (bool, usize) = road.dir_and_offset(lane.id);
        if is_fwd {
            if forwards[idx] == new_type {
                return None;
            }
            forwards[idx] = new_type;
            if !are_lanes_valid(&forwards) {
                return None;
            }
        } else {
            if backwards[idx] == new_type {
                return None;
            }
            backwards[idx] = new_type;
            if !are_lanes_valid(&backwards) {
                return None;
            }
        }
        Some(
            RoadEdit { road: road.id, forwards_lanes: forwards, backwards_lanes: backwards, reason },
        )
    }

    /// Delete one lane, unless it is a sidewalk: the edited layout for the
    /// whole road, or nothing.
    pub fn delete_lane(road: &Road, lane: &Lane) -> (r: Option<RoadEdit>)
        requires
            road.wf(),
            road.has_lane(lane.id),
            road.lane_consistent(*lane),
        ensures
            r is Some <==> lane.lane_type != LaneType::Sidewalk,
            r matches Some(e) ==> ({
                &&& e.road == road.id
                &&& e.reason == EditReason::BasemapWrong
                &&& (lanes_contain(road.forwards@, lane.id) ==> e.forwards_lanes@ == lane_types_of(
                    road.forwards@,
                ).remove(lane_index_of(road.forwards@, lane.id)) && e.backwards_lanes@
                    == lane_types_of(road.backwards@))
                &&& (!lanes_contain(road.forwards@, lane.id) ==> e.backwards_lanes@
                    == lane_types_of(road.backwards@).remove(
                    lane_index_of(road.backwards@, lane.id),
                ) && e.forwards_lanes@ == lane_types_of(road.forwards@))
            }),
    {
        // Sidewalks are fixed.
        if lane.lane_type == LaneType::Sidewalk {
            return None;
        }
        let (forwards, backwards): (Vec<LaneType>, Vec<LaneType>) = road.get_lane_types();
        let mut forwards = forwards;
        let mut backwards = backwards;
        let (is_fwd, idx): (bool, usize) = road.dir_and_offset(lane.id);
        if is_fwd {
            forwards.remove(idx);
        } else {
            backwards.remove(idx);
        }
        Some(
            RoadEdit {
                road: road.id,
                forwards_lanes: forwards,
                backwards_lanes: backwards,
                reason: EditReason::BasemapWrong,
            },
        )
    }
}

/// All road edits in force, at most one per road.
#[derive(Clone, Debug)]
pub struct Edits {
    pub roads: BTreeMap<usize, RoadEdit>,
}

impl Edits {
    pub fn new() -> (e: Edits)
        ensures
            e.roads@ == Map::<usize, RoadEdit>::empty(),
    {
        Edits { roads: BTreeMap::new() }
    }

    /// Try to change one lane's type; record the edit and report success.
    pub fn change_lane_type(
        &mut self,
        reason: EditReason,
        road: &Road,
        lane: &Lane,
        new_type: LaneType,
    ) -> (b: bool)
        requires
            road.wf(),
            road.has_lane(lane.id),
            road.lane_consistent(*lane),
        ensures
            b == spec_change_allowed(*road, *lane, new_type),
            !b ==> final(self).roads@ == old(self).roads@,
            b ==> ({
                &&& final(self).roads@.contains_key(road.id.0)
                &&& final(self).roads@.remove(road.id.0) == old(self).roads@.remove(road.id.0)
                &&& final(self).roads@[road.id.0].road == road.id
                &&& final(self).roads@[road.id.0].reason == reason
            }),
    {
        match RoadEdit::change_lane_type(reason, road, lane, new_type) {
            Some(edit) => {
                self.roads.insert(road.id.0, edit);
                true
            },
            None => false,
        }
    }

    /// Try to delete one lane; record the edit and report success.
    pub fn delete_lane(&mut self, road: &Road, lane: &Lane) -> (b: bool)
        requires
            road.wf(),
            road.has_lane(lane.id),
            road.lane_consistent(*lane),
        ensures
            b == (lane.lane_type != LaneType::Sidewalk),
            !b ==> final(self).roads@ == old(self).roads@,
            b ==> ({
                &&& final(self).roads@.contains_key(road.id.0)
                &&& final(self).roads@.remove(road.id.0) == old(self).roads@.remove(road.id.0)
                &&& final(self).roads@[road.id.0].road == road.id
                &&& final(self).roads@[road.id.0].reason == EditReason::BasemapWrong
            }),
    {
        match RoadEdit::delete_lane(road, lane) {
            Some(edit) => {
                self.roads.insert(road.id.0, edit);
                true
            },
            None => false,
        }
    }
}

} // verus!
