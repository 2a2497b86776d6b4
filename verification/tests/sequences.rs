//! Driving many randomly generated, internally legal leg sequences
//! through the whole state machine: no transition on a legal sequence may
//! ever report a mismatch.

use tripsim::ids::{agent_key, AgentID, BuildingID, CarID, LaneID, PedestrianID, RouteID, TripID};
use tripsim::trips::{ParkedCar, ParkingSpot, TripLeg, TripManager};
use tripsim::units::Distance;
use tripsim::walking::{BuildingFront, BusStop, MapModel, SidewalkSpot};

/// A small deterministic generator, so the "random" sequences are
/// reproducible.
struct Lcg(u64);

impl Lcg {
    fn next(&mut self) -> u64 {
        self.0 = self
            .0
            .wrapping_mul(6364136223846793005)
            .wrapping_add(1442695040888963407);
        self.0 >> 33
    }
}

fn spot(n: usize) -> SidewalkSpot {
    SidewalkSpot::bus_stop(BusStop {
        sidewalk: LaneID(100 + n),
        dist_along: Distance::const_cm(n as i32),
    })
}

/// A legal trip: a chain of (walk, drive) and (walk, ride) segments,
/// ending with the walk to the goal building.
fn random_legs(rng: &mut Lcg, goal: SidewalkSpot, trip_n: usize) -> Vec<TripLeg> {
    let mut legs: Vec<TripLeg> = Vec::new();
    let segments = rng.next() % 4;
    for k in 0..segments {
        let n = trip_n * 10 + k as usize;
        legs.push(TripLeg::Walk(spot(n)));
        if rng.next() % 2 == 0 {
            legs.push(TripLeg::Drive(
                ParkedCar {
                    car: CarID(trip_n * 10 + k as usize),
                    spot: ParkingSpot { lane: LaneID(n), idx: k as usize },
                },
                BuildingID(1),
            ));
        } else {
            legs.push(TripLeg::RideBus(
                RouteID(rng.next() as usize % 7),
                BusStop { sidewalk: LaneID(n), dist_along: Distance::const_cm(5) },
            ));
        }
    }
    legs.push(TripLeg::Walk(goal));
    legs
}

/// Run one trip from its first leg down to the final walk, asserting that
/// every transition succeeds and uncovers the right kind of leg.
fn run_trip(tm: &mut TripManager, tid: TripID, ped: PedestrianID, wrong_route: RouteID) {
    loop {
        let idx = tid.0;
        if tm.trips[idx].legs.len() == 1 {
            // Only the final walk remains; completing it is the walking
            // subsystem's business, outside the trip core.
            assert!(matches!(tm.trips[idx].legs[0], TripLeg::Walk(_)));
            break;
        }
        let front = tm.trips[idx].legs[0];
        let second = tm.trips[idx].legs[1];
        match (front, second) {
            (TripLeg::Walk(_), TripLeg::Drive(parked, _)) => {
                tm.agent_starting_trip_leg(AgentID::Pedestrian(ped), tid).unwrap();
                tm.ped_reached_parking_spot(ped).unwrap();
                // The uncovered front leg is always the drive.
                assert!(matches!(tm.trips[idx].legs[0], TripLeg::Drive(_, _)));
                tm.agent_starting_trip_leg(AgentID::Car(parked.car), tid).unwrap();
                let (_, p, _) = tm.car_reached_parking_spot(parked.car).unwrap();
                assert_eq!(p, ped);
                // After parking, the front leg is always a walk.
                assert!(matches!(tm.trips[idx].legs[0], TripLeg::Walk(_)));
            }
            (TripLeg::Walk(_), TripLeg::RideBus(route, until_stop)) => {
                tm.agent_starting_trip_leg(AgentID::Pedestrian(ped), tid).unwrap();
                // The wrong bus may pass any number of times first.
                assert_eq!(tm.should_ped_board_bus(ped, wrong_route), Ok(false));
                assert_eq!(tm.should_ped_board_bus(ped, route), Ok(true));
                assert_eq!(tm.should_ped_leave_bus(ped, until_stop), Ok(true));
                tm.ped_finished_bus_ride(ped).unwrap();
                // After a bus ride, the front leg is always a walk.
                assert!(matches!(tm.trips[idx].legs[0], TripLeg::Walk(_)));
            }
            _ => panic!("generated an illegal adjacency"),
        }
        // Between legs the agent is handed off, so nobody is registered.
        assert!(!tm.active_trip_mode.contains_key(&agent_key(AgentID::Pedestrian(ped))));
    }
}

#[test]
fn legal_sequences_never_mismatch() {
    let map = MapModel::new(vec![
        BuildingFront { sidewalk: LaneID(0), dist_along: Distance::const_cm(10) },
        BuildingFront { sidewalk: LaneID(1), dist_along: Distance::const_cm(20) },
    ]);
    let goal = SidewalkSpot::building(BuildingID(1), &map);
    let mut rng = Lcg(12345);
    let mut tm = TripManager::new();
    // The generated routes use routes 0..7; route 7 is nobody's bus.
    let wrong_route = RouteID(7);
    let mut trips: Vec<(TripID, PedestrianID)> = Vec::new();
    for t in 0..25 {
        let ped = PedestrianID(t);
        let legs = random_legs(&mut rng, goal, t);
        let tid = tm.new_trip(&map, ped, BuildingID(0), BuildingID(1), legs).unwrap();
        trips.push((tid, ped));
    }
    for (tid, ped) in trips {
        run_trip(&mut tm, tid, ped, wrong_route);
    }
    // Every trip ran down to its final walk; nobody is left registered.
    assert!(tm.active_trip_mode.is_empty());
    for t in 0..25 {
        assert_eq!(tm.trips[t].legs.len(), 1);
    }
}
