//! The trip lifecycle state machine: the authoritative record of every
//! trip's progress, and of which agent is currently animating which leg.
//!
//! A trip is an ordered queue of legs, consumed strictly from the front.
//! The manager also keeps the active-mover table: an agent is a key of that
//! table exactly while it is the one moving a trip forward. Each transition
//! validates the front of the leg queue before touching anything, so a
//! caller that is out of sync gets a typed contract violation back and the
//! manager's state is left exactly as it was.

use std::collections::BTreeMap;
use std::collections::VecDeque;

use vstd::prelude::*;

use crate::ids::{agent_key, lemma_agent_key_injective, spec_agent_key, AgentID, BuildingID, CarID, PedestrianID, RouteID, TripID};
use crate::walking::{BusStop, MapModel, SidewalkSpot};

verus! {

broadcast use
    vstd::std_specs::btree::group_btree_axioms,
    vstd::laws_cmp::group_laws_cmp,
    vstd::std_specs::vecdeque::group_vec_dequeue_axioms;

/// A car waiting in a parking spot.
#[derive(Clone, Copy, Debug, PartialEq, Eq, Structural)]
pub struct ParkingSpot {
    pub lane: crate::ids::LaneID,
    pub idx: usize,
}

/// A specific car sitting in a specific spot.
#[derive(Clone, Copy, Debug, PartialEq, Eq, Structural)]
pub struct ParkedCar {
    pub car: CarID,
    pub spot: ParkingSpot,
}

/// One mode-homogeneous segment of a trip. Except for `Drive`, which must
/// say what car to use, legs do not record where they start: the start is
/// wherever the previous leg left the agent.
#[derive(Clone, Copy, Debug, PartialEq, Eq, Structural)]
pub enum TripLeg {
    Walk(SidewalkSpot),
    /// Drive a specific car toward the building the agent ultimately wants
    /// to be near; where it actually parks is not known in advance.
    Drive(ParkedCar, BuildingID),
    /// Board the named route and ride until the named stop.
    RideBus(RouteID, BusStop),
}

/// Does this leg drive the given car?
pub open spec fn spec_leg_uses_car(leg: TripLeg, id: CarID) -> bool {
    match leg {
        TripLeg::Drive(parked, _) => parked.car == id,
        _ => false,
    }
}

impl TripLeg {
    /// Does this leg drive the given car?
    pub fn uses_car(&self, id: CarID) -> (b: bool)
        ensures
            b == spec_leg_uses_car(*self, id),
    {
        match self {
            TripLeg::Drive(parked, _) => parked.car == id,
            _ => false,
        }
    }
}

/// A contract violation in the trip state machine: a calling subsystem
/// reported a transition the current trip state cannot take. These indicate
/// desynchronization bugs and are never recoverable; each names the
/// offending identifiers and what was found instead of what was expected.
#[derive(Clone, Copy, Debug, PartialEq, Eq, Structural)]
#[allow(inconsistent_fields)]
pub enum TripError {
    /// The agent is already registered as the active mover of some trip.
    AgentAlreadyActive { agent: AgentID, trip: TripID },
    /// The trip id was never issued by this manager.
    UnknownTrip { trip: TripID },
    /// The agent is not registered as the active mover of any trip.
    AgentNotActive { agent: AgentID },
    /// The trip's leg queue is already empty, or too short for this step.
    NoRemainingLegs { trip: TripID },
    /// Probing the leg after the current one, but there is none.
    NoSecondLeg { trip: TripID },
    /// Expected a `Drive` leg; found this one.
    NotDriveLeg { trip: TripID, actual: TripLeg },
    /// The front `Drive` leg names a different car than the one reported.
    WrongCar { trip: TripID, expected: CarID, actual: CarID },
    /// Expected a `Walk` leg; found this one.
    NotWalkLeg { trip: TripID, actual: TripLeg },
    /// Expected a `RideBus` leg; found this one.
    NotRideBusLeg { trip: TripID, actual: TripLeg },
    /// A trip must have at least one leg.
    EmptyTrip,
    /// A trip's last leg must walk to the goal building's sidewalk spot.
    LastLegNotWalkToGoal { goal: BuildingID, actual: TripLeg },
}

/// One person's end-to-end journey. The pedestrian identity never changes,
/// even while that person is inside a car or a bus; the leg queue only ever
/// shrinks from the front.
#[derive(Debug)]
pub struct Trip {
    pub id: TripID,
    pub ped: PedestrianID,
    pub start_bldg: BuildingID,
    pub goal_bldg: BuildingID,
    pub legs: VecDeque<TripLeg>,
}

/// `t1` is `t0` with its front leg consumed and everything else unchanged.
pub open spec fn popped_front(t0: Trip, t1: Trip) -> bool {
    &&& t1.id == t0.id
    &&& t1.ped == t0.ped
    &&& t1.start_bldg == t0.start_bldg
    &&& t1.goal_bldg == t0.goal_bldg
    &&& t0.legs@.len() > 0
    &&& t1.legs@ == t0.legs@.drop_first()
}

/// `post` is `pre` with exactly the trip at `idx` advanced by one leg.
pub open spec fn trips_same_except_pop(pre: Seq<Trip>, post: Seq<Trip>, idx: int) -> bool {
    &&& 0 <= idx < pre.len()
    &&& post.len() == pre.len()
    &&& (forall|i: int| 0 <= i < pre.len() && i != idx ==> post[i] == pre[i])
    &&& popped_front(pre[idx], post[idx])
}

/// Does the front leg of `t` match `a` as its mover? A car agent must be
/// driving exactly that car; a pedestrian agent must be the trip's person,
/// on foot or riding a bus.
pub open spec fn agent_matches_front(a: AgentID, t: Trip) -> bool
    recommends
        t.legs@.len() > 0,
{
    match a {
        AgentID::Car(c) => t.legs@[0] is Drive && t.legs@[0]->Drive_0.car == c,
        AgentID::Pedestrian(p) => t.ped == p && (t.legs@[0] is Walk || t.legs@[0] is RideBus),
    }
}

/// Owns every trip and the active-mover table. Trips are created once and
/// never deleted; a trip is complete when its leg queue has emptied, which
/// callers observe through the final walking transition.
#[derive(Debug)]
pub struct TripManager {
    pub trips: Vec<Trip>,
    /// Active movers, keyed by `spec_agent_key` of the agent. Keyed by an
    /// integer so the table's contents are fully transparent to reasoning;
    /// the key order equals the agent order, so walking the table yields a
    /// stable, reproducible order for snapshots.
    pub active_trip_mode: BTreeMap<u128, TripID>,
}

impl TripManager {
    /// Structural well-formedness: trips are stored at the index their id
    /// names, and the active table only points at existing trips.
    pub open spec fn wf(self) -> bool {
        &&& forall|i: int|
            0 <= i < self.trips@.len() ==> (#[trigger] self.trips@[i]).id == TripID(i as usize)
        &&& forall|k: u128| #[trigger]
            self.active_trip_mode@.contains_key(k) ==> self.active_trip_mode@[k].0
                < self.trips@.len()
    }

    /// Is this agent currently registered as an active mover?
    pub open spec fn agent_active(self, a: AgentID) -> bool {
        self.active_trip_mode@.contains_key(spec_agent_key(a))
    }

    /// The trip this agent is moving (meaningful only while active).
    pub open spec fn active_trip(self, a: AgentID) -> TripID
        recommends
            self.agent_active(a),
    {
        self.active_trip_mode@[spec_agent_key(a)]
    }

    /// One registered agent's entry is sound: it points at an existing
    /// trip with legs left, whose front leg this agent legally animates.
    pub open spec fn agent_entry_ok(self, a: AgentID) -> bool
        recommends
            self.agent_active(a),
    {
        let tid = self.active_trip(a);
        &&& tid.0 < self.trips@.len()
        &&& self.trips@[tid.0 as int].legs@.len() > 0
        &&& agent_matches_front(a, self.trips@[tid.0 as int])
    }

    /// The full active-map consistency property: every registered agent
    /// points at an existing trip whose front leg it is legally animating,
    /// and no trip has two active movers.
    pub open spec fn consistent(self) -> bool {
        &&& forall|a: AgentID| #[trigger] self.agent_active(a) ==> self.agent_entry_ok(a)
        &&& forall|a: AgentID, b: AgentID|
            #![trigger self.agent_active(a), self.agent_active(b)]
            self.agent_active(a) && self.agent_active(b) && a != b ==> self.active_trip(a)
                != self.active_trip(b)
    }

    pub fn new() -> (tm: TripManager)
        ensures
            tm.wf(),
            tm.consistent(),
            tm.trips@.len() == 0,
            tm.active_trip_mode@ == Map::<u128, TripID>::empty(),
    {
        TripManager { trips: Vec::new(), active_trip_mode: BTreeMap::new() }
    }

    /// Look up the trip an agent is actively moving.
    fn lookup_active(&self, a: AgentID) -> (r: Option<TripID>)
        ensures
            r == if self.agent_active(a) {
                Some(self.active_trip(a))
            } else {
                None::<TripID>
            },
    {
        let key: u128 = agent_key(a);
        match self.active_trip_mode.get(&key) {
            Some(t) => Some(*t),
            None => None,
        }
    }

    /// Register `agent` as the active mover for `trip`. Double registration
    /// is a fatal contract violation: an agent cannot animate two modes at
    /// once. Registering for a trip id that was never issued is equally
    /// fatal.
    pub fn agent_starting_trip_leg(&mut self, agent: AgentID, trip: TripID) -> (r: Result<
        (),
        TripError,
    >)
        requires
            old(self).wf(),
        ensures
            final(self).wf(),
            old(self).agent_active(agent) ==> (*final(self) == *old(self) && r == Err::<
                (),
                TripError,
            >(
                TripError::AgentAlreadyActive {
                    agent,
                    trip: old(self).active_trip(agent),
                },
            )),
            !old(self).agent_active(agent) && trip.0 >= old(self).trips@.len() ==> (*final(self)
                == *old(self) && r == Err::<(), TripError>(TripError::UnknownTrip { trip })),
            !old(self).agent_active(agent) && trip.0 < old(self).trips@.len() ==> ({
                &&& final(self).trips@ == old(self).trips@
                &&& final(self).active_trip_mode@ == old(self).active_trip_mode@.insert(
                    spec_agent_key(agent),
                    trip,
                )
                &&& r == Ok::<(), TripError>(())
            }),
    {
        let key: u128 = agent_key(agent);
        match self.active_trip_mode.get(&key) {
            Some(existing) => {
                return Err(TripError::AgentAlreadyActive { agent, trip: *existing });
            },
            None => {},
        }
        if trip.0 >= self.trips.len() {
            return Err(TripError::UnknownTrip { trip });
        }
        self.active_trip_mode.insert(key, trip);
        Ok(())
    }

    /// A car finished its `Drive` leg by parking. Unregisters the car,
    /// consumes the leg, and returns who continues on foot and where to:
    /// the trip id, the trip's pedestrian, and the next walking
    /// destination. Fatal unless the car is active, its trip's front leg
    /// drives exactly this car, and a `Walk` leg follows.
    pub fn car_reached_parking_spot(&mut self, car: CarID) -> (r: Result<
        (TripID, PedestrianID, SidewalkSpot),
        TripError,
    >)
        requires
            old(self).wf(),
        ensures
            final(self).wf(),
            spec_car_reached_ok(*old(self), car) ==> ({
                let a = AgentID::Car(car);
                let tid = old(self).active_trip(a);
                let legs = old(self).trips@[tid.0 as int].legs@;
                &&& final(self).active_trip_mode@ == old(self).active_trip_mode@.remove(
                    spec_agent_key(a),
                )
                &&& trips_same_except_pop(old(self).trips@, final(self).trips@, tid.0 as int)
                &&& r == Ok::<_, TripError>(
                    (tid, old(self).trips@[tid.0 as int].ped, legs[1]->Walk_0),
                )
            }),
            !spec_car_reached_ok(*old(self), car) ==> (*final(self) == *old(self) && r == Err::<
                (TripID, PedestrianID, SidewalkSpot),
                TripError,
            >(spec_car_reached_err(*old(self), car))),
    {
        let a = AgentID::Car(car);
        let tid: TripID = match self.lookup_active(a) {
            Some(t) => t,
            None => {
                return Err(TripError::AgentNotActive { agent: a });
            },
        };
        let idx: usize = tid.0;
        let (ped, walk_to): (PedestrianID, SidewalkSpot) = {
            let trip: &Trip = &self.trips[idx];
            if trip.legs.len() == 0 {
                return Err(TripError::NoRemainingLegs { trip: tid });
            }
            match trip.legs[0] {
                TripLeg::Drive(parked, _) => {
                    if parked.car != car {
                        return Err(
                            TripError::WrongCar { trip: tid, expected: parked.car, actual: car },
                        );
                    }
                },
                leg => {
                    return Err(TripError::NotDriveLeg { trip: tid, actual: leg });
                },
            }
            if trip.legs.len() < 2 {
                return Err(TripError::NoRemainingLegs { trip: tid });
            }
            match trip.legs[1] {
                TripLeg::Walk(to) => (trip.ped, to),
                leg => {
                    return Err(TripError::NotWalkLeg { trip: tid, actual: leg });
                },
            }
        };
        let key: u128 = agent_key(a);
        self.active_trip_mode.remove(&key);
        let trip: &mut Trip = &mut self.trips[idx];
        trip.legs.pop_front();
        Ok((tid, ped, walk_to))
    }
}

/// The state in which `car_reached_parking_spot` succeeds: the car is an
/// active mover, the front leg of its trip drives exactly this car, and a
/// walking leg follows.
pub open spec fn spec_car_reached_ok(pre: TripManager, car: CarID) -> bool {
    let a = AgentID::Car(car);
    &&& pre.agent_active(a)
    &&& pre.active_trip(a).0 < pre.trips@.len()
    &&& ({
        let legs = pre.trips@[pre.active_trip(a).0 as int].legs@;
        &&& legs.len() >= 2
        &&& legs[0] is Drive
        &&& legs[0]->Drive_0.car == car
        &&& legs[1] is Walk
    })
}

/// Which contract violation `car_reached_parking_spot` reports, checked in
/// the same order the transition validates.
pub open spec fn spec_car_reached_err(pre: TripManager, car: CarID) -> TripError {
    let a = AgentID::Car(car);
    if !pre.agent_active(a) {
        TripError::AgentNotActive { agent: a }
    } else {
        let tid = pre.active_trip(a);
        let legs = pre.trips@[tid.0 as int].legs@;
        if legs.len() == 0 {
            TripError::NoRemainingLegs { trip: tid }
        } else if !(legs[0] is Drive) {
            TripError::NotDriveLeg { trip: tid, actual: legs[0] }
        } else if legs[0]->Drive_0.car != car {
            TripError::WrongCar { trip: tid, expected: legs[0]->Drive_0.car, actual: car }
        } else if legs.len() < 2 {
            TripError::NoRemainingLegs { trip: tid }
        } else {
            TripError::NotWalkLeg { trip: tid, actual: legs[1] }
        }
    }
}

/// The state in which `ped_reached_parking_spot` succeeds: the pedestrian
/// is an active mover, their trip's front leg is the walk to the car, and a
/// `Drive` leg follows.
pub open spec fn spec_ped_reached_ok(pre: TripManager, ped: PedestrianID) -> bool {
    let a = AgentID::Pedestrian(ped);
    &&& pre.agent_active(a)
    &&& pre.active_trip(a).0 < pre.trips@.len()
    &&& ({
        let legs = pre.trips@[pre.active_trip(a).0 as int].legs@;
        &&& legs.len() >= 2
        &&& legs[0] is Walk
        &&& legs[1] is Drive
    })
}

/// Which contract violation `ped_reached_parking_spot` reports.
pub open spec fn spec_ped_reached_err(pre: TripManager, ped: PedestrianID) -> TripError {
    let a = AgentID::Pedestrian(ped);
    if !pre.agent_active(a) {
        TripError::AgentNotActive { agent: a }
    } else {
        let tid = pre.active_trip(a);
        let legs = pre.trips@[tid.0 as int].legs@;
        if legs.len() == 0 {
            TripError::NoRemainingLegs { trip: tid }
        } else if !(legs[0] is Walk) {
            TripError::NotWalkLeg { trip: tid, actual: legs[0] }
        } else if legs.len() < 2 {
            TripError::NoRemainingLegs { trip: tid }
        } else {
            TripError::NotDriveLeg { trip: tid, actual: legs[1] }
        }
    }
}

/// The state in which `should_ped_board_bus` can decide: the pedestrian is
/// active (their front leg is the walk that brought them to the stop), and
/// the leg after it rides a bus.
pub open spec fn spec_board_bus_ok(pre: TripManager, ped: PedestrianID) -> bool {
    let a = AgentID::Pedestrian(ped);
    &&& pre.agent_active(a)
    &&& pre.active_trip(a).0 < pre.trips@.len()
    &&& ({
        let legs = pre.trips@[pre.active_trip(a).0 as int].legs@;
        &&& legs.len() >= 2
        &&& legs[1] is RideBus
    })
}

/// Which contract violation `should_ped_board_bus` reports.
pub open spec fn spec_board_bus_err(pre: TripManager, ped: PedestrianID) -> TripError {
    let a = AgentID::Pedestrian(ped);
    if !pre.agent_active(a) {
        TripError::AgentNotActive { agent: a }
    } else {
        let tid = pre.active_trip(a);
        let legs = pre.trips@[tid.0 as int].legs@;
        if legs.len() < 2 {
            TripError::NoSecondLeg { trip: tid }
        } else {
            TripError::NotRideBusLeg { trip: tid, actual: legs[1] }
        }
    }
}

/// The state in which `should_ped_leave_bus` can answer: the pedestrian is
/// active and their front leg is a bus ride.
pub open spec fn spec_leave_bus_ok(pre: TripManager, ped: PedestrianID) -> bool {
    let a = AgentID::Pedestrian(ped);
    &&& pre.agent_active(a)
    &&& pre.active_trip(a).0 < pre.trips@.len()
    &&& ({
        let legs = pre.trips@[pre.active_trip(a).0 as int].legs@;
        &&& legs.len() > 0
        &&& legs[0] is RideBus
    })
}

/// Which contract violation `should_ped_leave_bus` reports.
pub open spec fn spec_leave_bus_err(pre: TripManager, ped: PedestrianID) -> TripError {
    let a = AgentID::Pedestrian(ped);
    if !pre.agent_active(a) {
        TripError::AgentNotActive { agent: a }
    } else {
        let tid = pre.active_trip(a);
        let legs = pre.trips@[tid.0 as int].legs@;
        if legs.len() == 0 {
            TripError::NoRemainingLegs { trip: tid }
        } else {
            TripError::NotRideBusLeg { trip: tid, actual: legs[0] }
        }
    }
}

/// The state in which `ped_finished_bus_ride` succeeds: the pedestrian is
/// active, their front leg is the finished bus ride, and a walking leg
/// follows.
pub open spec fn spec_bus_ride_done_ok(pre: TripManager, ped: PedestrianID) -> bool {
    let a = AgentID::Pedestrian(ped);
    &&& pre.agent_active(a)
    &&& pre.active_trip(a).0 < pre.trips@.len()
    &&& ({
        let legs = pre.trips@[pre.active_trip(a).0 as int].legs@;
        &&& legs.len() >= 2
        &&& legs[0] is RideBus
        &&& legs[1] is Walk
    })
}

/// Which contract violation `ped_finished_bus_ride` reports.
pub open spec fn spec_bus_ride_done_err(pre: TripManager, ped: PedestrianID) -> TripError {
    let a = AgentID::Pedestrian(ped);
    if !pre.agent_active(a) {
        TripError::AgentNotActive { agent: a }
    } else {
        let tid = pre.active_trip(a);
        let legs = pre.trips@[tid.0 as int].legs@;
        if legs.len() == 0 {
            TripError::NoRemainingLegs { trip: tid }
        } else if !(legs[0] is RideBus) {
            TripError::NotRideBusLeg { trip: tid, actual: legs[0] }
        } else if legs.len() < 2 {
            TripError::NoRemainingLegs { trip: tid }
        } else {
            TripError::NotWalkLeg { trip: tid, actual: legs[1] }
        }
    }
}

/// The condition under which `new_trip` accepts a leg list: nonempty, and
/// ending with a walk to exactly the goal building's sidewalk spot.
pub open spec fn spec_new_trip_ok(legs: Seq<TripLeg>, goal: BuildingID, map: MapModel) -> bool {
    &&& legs.len() > 0
    &&& legs.last() is Walk
    &&& legs.last()->Walk_0 == map.spec_building_spot(goal)
}

/// Which contract violation `new_trip` reports.
pub open spec fn spec_new_trip_err(legs: Seq<TripLeg>, goal: BuildingID) -> TripError {
    if legs.len() == 0 {
        TripError::EmptyTrip
    } else {
        TripError::LastLegNotWalkToGoal { goal, actual: legs.last() }
    }
}

/// Does some leg of this trip drive the given car?
pub open spec fn spec_trip_uses_car(t: Trip, car: CarID) -> bool {
    exists|i: int| 0 <= i < t.legs@.len() && spec_leg_uses_car(#[trigger] t.legs@[i], car)
}

impl TripManager {
    /// A pedestrian finished walking to the car they are about to drive.
    /// Unregisters the pedestrian, consumes the walking leg, and returns
    /// the trip id and the building the following `Drive` leg is headed
    /// toward. Fatal unless the pedestrian is active, walking, and a
    /// `Drive` leg follows.
    pub fn ped_reached_parking_spot(&mut self, ped: PedestrianID) -> (r: Result<
        (TripID, BuildingID),
        TripError,
    >)
        requires
            old(self).wf(),
        ensures
            final(self).wf(),
            spec_ped_reached_ok(*old(self), ped) ==> ({
                let a = AgentID::Pedestrian(ped);
                let tid = old(self).active_trip(a);
                let legs = old(self).trips@[tid.0 as int].legs@;
                &&& final(self).active_trip_mode@ == old(self).active_trip_mode@.remove(
                    spec_agent_key(a),
                )
                &&& trips_same_except_pop(old(self).trips@, final(self).trips@, tid.0 as int)
                &&& r == Ok::<_, TripError>((tid, legs[1]->Drive_1))
            }),
            !spec_ped_reached_ok(*old(self), ped) ==> (*final(self) == *old(self) && r == Err::<
                (TripID, BuildingID),
                TripError,
            >(spec_ped_reached_err(*old(self), ped))),
    {
        let a = AgentID::Pedestrian(ped);
        let tid: TripID = match self.lookup_active(a) {
            Some(t) => t,
            None => {
                return Err(TripError::AgentNotActive { agent: a });
            },
        };
        let idx: usize = tid.0;
        let drive_to: BuildingID = {
            let trip: &Trip = &self.trips[idx];
            if trip.legs.len() == 0 {
                return Err(TripError::NoRemainingLegs { trip: tid });
            }
            match trip.legs[0] {
                TripLeg::Walk(_) => {},
                leg => {
                    return Err(TripError::NotWalkLeg { trip: tid, actual: leg });
                },
            }
            if trip.legs.len() < 2 {
                return Err(TripError::NoRemainingLegs { trip: tid });
            }
            match trip.legs[1] {
                TripLeg::Drive(_, to) => to,
                leg => {
                    return Err(TripError::NotDriveLeg { trip: tid, actual: leg });
                },
            }
        };
        let key: u128 = agent_key(a);
        self.active_trip_mode.remove(&key);
        let trip: &mut Trip = &mut self.trips[idx];
        trip.legs.pop_front();
        Ok((tid, drive_to))
    }

    /// The transit system asks whether a waiting pedestrian should board
    /// the bus of `route` that just arrived. Answering `false` changes
    /// nothing, so the question can be asked for every passing bus; the
    /// first `true` answer consumes the walk-to-the-stop leg, and the
    /// pedestrian stays registered because transit tracks passengers by
    /// pedestrian identity. Fatal unless the pedestrian is active and a
    /// bus-riding leg is queued behind the current one.
    pub fn should_ped_board_bus(&mut self, ped: PedestrianID, route: RouteID) -> (r: Result<
        bool,
        TripError,
    >)
        requires
            old(self).wf(),
        ensures
            final(self).wf(),
            spec_board_bus_ok(*old(self), ped) ==> ({
                let a = AgentID::Pedestrian(ped);
                let tid = old(self).active_trip(a);
                let legs = old(self).trips@[tid.0 as int].legs@;
                if legs[1]->RideBus_0 == route {
                    &&& final(self).active_trip_mode@ == old(self).active_trip_mode@
                    &&& trips_same_except_pop(old(self).trips@, final(self).trips@, tid.0 as int)
                    &&& r == Ok::<bool, TripError>(true)
                } else {
                    &&& *final(self) == *old(self)
                    &&& r == Ok::<bool, TripError>(false)
                }
            }),
            !spec_board_bus_ok(*old(self), ped) ==> (*final(self) == *old(self) && r == Err::<
                bool,
                TripError,
            >(spec_board_bus_err(*old(self), ped))),
    {
        let a = AgentID::Pedestrian(ped);
        let tid: TripID = match self.lookup_active(a) {
            Some(t) => t,
            None => {
                return Err(TripError::AgentNotActive { agent: a });
            },
        };
        let idx: usize = tid.0;
        {
            let trip: &Trip = &self.trips[idx];
            if trip.legs.len() < 2 {
                return Err(TripError::NoSecondLeg { trip: tid });
            }
            match trip.legs[1] {
                TripLeg::RideBus(r, _) => {
                    if r != route {
                        return Ok(false);
                    }
                },
                leg => {
                    return Err(TripError::NotRideBusLeg { trip: tid, actual: leg });
                },
            }
        }
        // The right bus arrived: consume the walk-to-the-stop leg. The
        // pedestrian stays in the active table while riding.
        let trip: &mut Trip = &mut self.trips[idx];
        trip.legs.pop_front();
        Ok(true)
    }

    /// Pure query from transit: is `stop` where this riding pedestrian
    /// gets off? Mutates nothing. Fatal unless the pedestrian is active
    /// with a bus-riding front leg.
    pub fn should_ped_leave_bus(&self, ped: PedestrianID, stop: BusStop) -> (r: Result<
        bool,
        TripError,
    >)
        requires
            self.wf(),
        ensures
            spec_leave_bus_ok(*self, ped) ==> ({
                let a = AgentID::Pedestrian(ped);
                let legs = self.trips@[self.active_trip(a).0 as int].legs@;
                r == Ok::<bool, TripError>(legs[0]->RideBus_1 == stop)
            }),
            !spec_leave_bus_ok(*self, ped) ==> r == Err::<bool, TripError>(
                spec_leave_bus_err(*self, ped),
            ),
    {
        let a = AgentID::Pedestrian(ped);
        let tid: TripID = match self.lookup_active(a) {
            Some(t) => t,
            None => {
                return Err(TripError::AgentNotActive { agent: a });
            },
        };
        let trip: &Trip = &self.trips[tid.0];
        if trip.legs.len() == 0 {
            return Err(TripError::NoRemainingLegs { trip: tid });
        }
        match trip.legs[0] {
            TripLeg::RideBus(_, until_stop) => Ok(until_stop == stop),
            leg => Err(TripError::NotRideBusLeg { trip: tid, actual: leg }),
        }
    }

    /// A pedestrian's bus arrived at their stop. Unregisters them (the
    /// spawner re-registers for the following walk), consumes the bus leg,
    /// and returns the trip id and the next walking destination. Fatal
    /// unless the pedestrian is active, riding, and a `Walk` leg follows.
    pub fn ped_finished_bus_ride(&mut self, ped: PedestrianID) -> (r: Result<
        (TripID, SidewalkSpot),
        TripError,
    >)
        requires
            old(self).wf(),
        ensures
            final(self).wf(),
            spec_bus_ride_done_ok(*old(self), ped) ==> ({
                let a = AgentID::Pedestrian(ped);
                let tid = old(self).active_trip(a);
                let legs = old(self).trips@[tid.0 as int].legs@;
                &&& final(self).active_trip_mode@ == old(self).active_trip_mode@.remove(
                    spec_agent_key(a),
                )
                &&& trips_same_except_pop(old(self).trips@, final(self).trips@, tid.0 as int)
                &&& r == Ok::<_, TripError>((tid, legs[1]->Walk_0))
            }),
            !spec_bus_ride_done_ok(*old(self), ped) ==> (*final(self) == *old(self) && r
                == Err::<(TripID, SidewalkSpot), TripError>(
                spec_bus_ride_done_err(*old(self), ped),
            )),
    {
        let a = AgentID::Pedestrian(ped);
        let tid: TripID = match self.lookup_active(a) {
            Some(t) => t,
            None => {
                return Err(TripError::AgentNotActive { agent: a });
            },
        };
        let idx: usize = tid.0;
        let walk_to: SidewalkSpot = {
            let trip: &Trip = &self.trips[idx];
            if trip.legs.len() == 0 {
                return Err(TripError::NoRemainingLegs { trip: tid });
            }
            match trip.legs[0] {
                TripLeg::RideBus(_, _) => {},
                leg => {
                    return Err(TripError::NotRideBusLeg { trip: tid, actual: leg });
                },
            }
            if trip.legs.len() < 2 {
                return Err(TripError::NoRemainingLegs { trip: tid });
            }
            match trip.legs[1] {
                TripLeg::Walk(to) => to,
                leg => {
                    return Err(TripError::NotWalkLeg { trip: tid, actual: leg });
                },
            }
        };
        let key: u128 = agent_key(a);
        self.active_trip_mode.remove(&key);
        let trip: &mut Trip = &mut self.trips[idx];
        trip.legs.pop_front();
        Ok((tid, walk_to))
    }

    /// Create and register a new trip for `ped` from `start_bldg` to
    /// `goal_bldg`. The legs must be nonempty and end by walking to exactly
    /// the goal building's sidewalk spot; anything else is caller misuse
    /// and fatal. Returns the fresh trip id. Registers no active mover:
    /// that is the spawner's separate `agent_starting_trip_leg` call.
    pub fn new_trip(
        &mut self,
        map: &MapModel,
        ped: PedestrianID,
        start_bldg: BuildingID,
        goal_bldg: BuildingID,
        legs: Vec<TripLeg>,
    ) -> (r: Result<TripID, TripError>)
        requires
            old(self).wf(),
            map.has_building(goal_bldg),
        ensures
            final(self).wf(),
            spec_new_trip_ok(legs@, goal_bldg, *map) ==> ({
                let tid = TripID(old(self).trips@.len() as usize);
                &&& final(self).active_trip_mode@ == old(self).active_trip_mode@
                &&& final(self).trips@.len() == old(self).trips@.len() + 1
                &&& (forall|i: int|
                    0 <= i < old(self).trips@.len() ==> final(self).trips@[i] == old(
                        self,
                    ).trips@[i])
                &&& final(self).trips@.last().id == tid
                &&& final(self).trips@.last().ped == ped
                &&& final(self).trips@.last().start_bldg == start_bldg
                &&& final(self).trips@.last().goal_bldg == goal_bldg
                &&& final(self).trips@.last().legs@ == legs@
                &&& r == Ok::<TripID, TripError>(tid)
            }),
            !spec_new_trip_ok(legs@, goal_bldg, *map) ==> (*final(self) == *old(self) && r
                == Err::<TripID, TripError>(spec_new_trip_err(legs@, goal_bldg))),
    {
        if legs.len() == 0 {
            return Err(TripError::EmptyTrip);
        }
        let last: TripLeg = legs[legs.len() - 1];
        match last {
            TripLeg::Walk(to) => {
                let goal_spot: SidewalkSpot = SidewalkSpot::building(goal_bldg, map);
                if !(to == goal_spot) {
                    return Err(TripError::LastLegNotWalkToGoal { goal: goal_bldg, actual: last });
                }
            },
            leg => {
                return Err(TripError::LastLegNotWalkToGoal { goal: goal_bldg, actual: leg });
            },
        }
        let id = TripID(self.trips.len());
        let mut queue: VecDeque<TripLeg> = VecDeque::new();
        let mut i: usize = 0;
        while i < legs.len()
            invariant
                i <= legs.len(),
                queue@ == legs@.subrange(0, i as int),
            decreases legs.len() - i,
        {
            queue.push_back(legs[i]);
            proof {
                assert(legs@.subrange(0, i + 1) =~= legs@.subrange(0, i as int).push(
                    legs@[i as int],
                ));
            }
            i += 1;
        }
        proof {
            assert(legs@.subrange(0, legs@.len() as int) =~= legs@);
        }
        self.trips.push(
            Trip { id, ped, start_bldg, goal_bldg, legs: queue },
        );
        Ok(id)
    }

    /// Which trip, if any, has committed to driving `car` in some leg? The
    /// spawner uses this to avoid double-booking a parked car. Returns the
    /// first such trip in creation order.
    #[verifier::loop_isolation(false)]
    pub fn get_trip_using_car(&self, car: CarID) -> (r: Option<TripID>)
        requires
            self.wf(),
        ensures
            r matches Some(tid) ==> ({
                &&& tid.0 < self.trips@.len()
                &&& spec_trip_uses_car(self.trips@[tid.0 as int], car)
                &&& forall|i: int| 0 <= i < tid.0 ==> !spec_trip_uses_car(#[trigger] self.trips@[i], car)
            }),
            r is None ==> forall|i: int|
                0 <= i < self.trips@.len() ==> !spec_trip_uses_car(#[trigger] self.trips@[i], car),
    {
        let mut t: usize = 0;
        while t < self.trips.len()
            invariant
                self.wf(),
                t <= self.trips@.len(),
                forall|i: int| 0 <= i < t ==> !spec_trip_uses_car(#[trigger] self.trips@[i], car),
            decreases self.trips@.len() - t,
        {
            let trip: &Trip = &self.trips[t];
            let mut l: usize = 0;
            while l < trip.legs.len()
                invariant
                    l <= trip.legs@.len(),
                    forall|j: int|
                        0 <= j < l ==> !spec_leg_uses_car(#[trigger] trip.legs@[j], car),
                decreases trip.legs@.len() - l,
            {
                if trip.legs[l].uses_car(car) {
                    proof {
                        assert(spec_trip_uses_car(self.trips@[t as int], car)) by {
                            assert(spec_leg_uses_car(self.trips@[t as int].legs@[l as int], car));
                        }
                    }
                    return Some(trip.id);
                }
                l += 1;
            }
            t += 1;
        }
        None
    }
}

/// Registering an agent keeps the active map consistent, provided the
/// registration is itself legal: the agent's mode matches the trip's front
/// leg and nobody else is moving that trip. Together with the other
/// preservation results this shows the active map stays consistent at
/// every simulated moment.
pub proof fn lemma_register_preserves_consistency(
    pre: TripManager,
    post: TripManager,
    agent: AgentID,
    trip: TripID,
)
    requires
        pre.wf(),
        pre.consistent(),
        !pre.agent_active(agent),
        trip.0 < pre.trips@.len(),
        pre.trips@[trip.0 as int].legs@.len() > 0,
        agent_matches_front(agent, pre.trips@[trip.0 as int]),
        forall|b: AgentID| #[trigger] pre.agent_active(b) ==> pre.active_trip(b) != trip,
        post.trips@ == pre.trips@,
        post.active_trip_mode@ == pre.active_trip_mode@.insert(spec_agent_key(agent), trip),
    ensures
        post.consistent(),
{
    assert forall|a: AgentID| #[trigger] post.agent_active(a) implies post.agent_entry_ok(a) by {
        if spec_agent_key(a) == spec_agent_key(agent) {
            lemma_agent_key_injective(a, agent);
        } else {
            assert(pre.agent_active(a));
            assert(pre.agent_entry_ok(a));
        }
    }
    assert forall|a: AgentID, b: AgentID|
        #![trigger post.agent_active(a), post.agent_active(b)]
        post.agent_active(a) && post.agent_active(b) && a != b implies post.active_trip(a)
        != post.active_trip(b) by {
        if spec_agent_key(a) == spec_agent_key(agent) {
            lemma_agent_key_injective(a, agent);
        }
        if spec_agent_key(b) == spec_agent_key(agent) {
            lemma_agent_key_injective(b, agent);
        }
        if a != agent && b != agent {
            assert(pre.agent_active(a) && pre.agent_active(b));
        } else if a == agent {
            assert(pre.agent_active(b) && pre.active_trip(b) != trip);
        } else {
            assert(pre.agent_active(a) && pre.active_trip(a) != trip);
        }
    }
}

/// Creating a trip never disturbs the active map's consistency: the new
/// trip has no mover yet, and every registered agent still points at the
/// unchanged trip it pointed at before.
pub proof fn lemma_new_trip_preserves_consistency(pre: TripManager, post: TripManager)
    requires
        pre.consistent(),
        post.trips@.len() == pre.trips@.len() + 1,
        forall|i: int| 0 <= i < pre.trips@.len() ==> post.trips@[i] == pre.trips@[i],
        post.active_trip_mode@ == pre.active_trip_mode@,
    ensures
        post.consistent(),
{
    assert forall|a: AgentID| #[trigger] post.agent_active(a) implies post.agent_entry_ok(a) by {
        assert(pre.agent_active(a));
        assert(pre.agent_entry_ok(a));
    }
}

/// Unregistering an agent and consuming the front leg of its trip keeps
/// the active map consistent: nobody else was moving that trip, so every
/// remaining entry is untouched.
pub proof fn lemma_advance_preserves_consistency(pre: TripManager, post: TripManager, a: AgentID)
    requires
        pre.wf(),
        pre.consistent(),
        pre.agent_active(a),
        trips_same_except_pop(pre.trips@, post.trips@, pre.active_trip(a).0 as int),
        post.active_trip_mode@ == pre.active_trip_mode@.remove(spec_agent_key(a)),
    ensures
        post.consistent(),
{
    let tid = pre.active_trip(a);
    assert forall|b: AgentID| #[trigger] post.agent_active(b) implies post.agent_entry_ok(b) by {
        if spec_agent_key(b) == spec_agent_key(a) {
            lemma_agent_key_injective(b, a);
            assert(false);
        } else {
            assert(pre.agent_active(b));
            assert(pre.agent_entry_ok(b));
            assert(b != a);
            assert(pre.active_trip(b) != tid);
        }
    }
}

/// A pedestrian boarding the right bus consumes the walk-to-the-stop leg
/// but stays registered; the map stays consistent because the uncovered
/// leg is the bus ride they are now taking.
pub proof fn lemma_board_preserves_consistency(
    pre: TripManager,
    post: TripManager,
    ped: PedestrianID,
)
    requires
        pre.wf(),
        pre.consistent(),
        pre.agent_active(AgentID::Pedestrian(ped)),
        pre.trips@[pre.active_trip(AgentID::Pedestrian(ped)).0 as int].legs@.len() >= 2,
        pre.trips@[pre.active_trip(AgentID::Pedestrian(ped)).0 as int].legs@[1] is RideBus,
        trips_same_except_pop(
            pre.trips@,
            post.trips@,
            pre.active_trip(AgentID::Pedestrian(ped)).0 as int,
        ),
        post.active_trip_mode@ == pre.active_trip_mode@,
    ensures
        post.consistent(),
{
    let a = AgentID::Pedestrian(ped);
    let tid = pre.active_trip(a);
    assert forall|b: AgentID| #[trigger] post.agent_active(b) implies post.agent_entry_ok(b) by {
        assert(pre.agent_active(b));
        assert(pre.agent_entry_ok(b));
        if b == a {
            assert(post.trips@[tid.0 as int].legs@[0] == pre.trips@[tid.0 as int].legs@[1]);
        } else {
            assert(pre.active_trip(b) != tid);
        }
    }
}

/// After a successful `car_reached_parking_spot`, the advanced trip's new
/// front leg is always a walk: the only legal way to continue after
/// parking is on foot.
pub proof fn lemma_walk_follows_parking(pre: TripManager, post: TripManager, car: CarID)
    requires
        spec_car_reached_ok(pre, car),
        trips_same_except_pop(
            pre.trips@,
            post.trips@,
            pre.active_trip(AgentID::Car(car)).0 as int,
        ),
    ensures
        post.trips@[pre.active_trip(AgentID::Car(car)).0 as int].legs@[0] is Walk,
{
}

/// After a successful `ped_reached_parking_spot`, the advanced trip's new
/// front leg is always a drive: the walk just consumed led to the car.
pub proof fn lemma_drive_follows_walk(pre: TripManager, post: TripManager, ped: PedestrianID)
    requires
        spec_ped_reached_ok(pre, ped),
        trips_same_except_pop(
            pre.trips@,
            post.trips@,
            pre.active_trip(AgentID::Pedestrian(ped)).0 as int,
        ),
    ensures
        post.trips@[pre.active_trip(AgentID::Pedestrian(ped)).0 as int].legs@[0] is Drive,
{
}

/// After a successful `ped_finished_bus_ride`, the advanced trip's new
/// front leg is always a walk: riders always disembark onto the sidewalk.
pub proof fn lemma_walk_follows_bus_ride(pre: TripManager, post: TripManager, ped: PedestrianID)
    requires
        spec_bus_ride_done_ok(pre, ped),
        trips_same_except_pop(
            pre.trips@,
            post.trips@,
            pre.active_trip(AgentID::Pedestrian(ped)).0 as int,
        ),
    ensures
        post.trips@[pre.active_trip(AgentID::Pedestrian(ped)).0 as int].legs@[0] is Walk,
{
}

} // verus!
