//! The trip state machine: construction rules, every transition, the
//! active-mover bookkeeping, and each contract violation.

use tripsim::ids::{agent_key, AgentID, BuildingID, CarID, LaneID, PedestrianID, RouteID, TripID};
use tripsim::trips::{ParkedCar, ParkingSpot, TripError, TripLeg, TripManager};
use tripsim::units::Distance;
use tripsim::walking::{BuildingFront, BusStop, MapModel, SidewalkSpot};

fn test_map() -> MapModel {
    MapModel::new(vec![
        BuildingFront { sidewalk: LaneID(10), dist_along: Distance::const_cm(100) },
        BuildingFront { sidewalk: LaneID(11), dist_along: Distance::const_cm(250) },
    ])
}

fn parked(car: usize) -> ParkedCar {
    ParkedCar { car: CarID(car), spot: ParkingSpot { lane: LaneID(20), idx: car } }
}

fn stop_a() -> BusStop {
    BusStop { sidewalk: LaneID(30), dist_along: Distance::const_cm(700) }
}

fn stop_b() -> BusStop {
    BusStop { sidewalk: LaneID(31), dist_along: Distance::const_cm(900) }
}

#[test]
fn new_trip_empty_legs_is_fatal() {
    let map = test_map();
    let mut tm = TripManager::new();
    let r = tm.new_trip(&map, PedestrianID(1), BuildingID(0), BuildingID(1), vec![]);
    assert_eq!(r, Err(TripError::EmptyTrip));
    assert_eq!(tm.trips.len(), 0);
}

#[test]
fn new_trip_wrong_last_leg_is_fatal() {
    let map = test_map();
    let mut tm = TripManager::new();
    // Ending with a drive is fatal.
    let legs = vec![TripLeg::Drive(parked(1), BuildingID(1))];
    let r = tm.new_trip(&map, PedestrianID(1), BuildingID(0), BuildingID(1), legs);
    assert!(matches!(r, Err(TripError::LastLegNotWalkToGoal { goal: BuildingID(1), .. })));
    // Ending with a walk to somewhere else than the goal building is fatal.
    let legs = vec![TripLeg::Walk(SidewalkSpot::bus_stop(stop_a()))];
    let r = tm.new_trip(&map, PedestrianID(1), BuildingID(0), BuildingID(1), legs);
    assert!(matches!(r, Err(TripError::LastLegNotWalkToGoal { .. })));
    assert_eq!(tm.trips.len(), 0);
}

#[test]
fn new_trip_assigns_sequential_ids() {
    let map = test_map();
    let mut tm = TripManager::new();
    let goal = SidewalkSpot::building(BuildingID(1), &map);
    let t0 = tm
        .new_trip(&map, PedestrianID(1), BuildingID(0), BuildingID(1), vec![TripLeg::Walk(goal)])
        .unwrap();
    let t1 = tm
        .new_trip(&map, PedestrianID(2), BuildingID(0), BuildingID(1), vec![TripLeg::Walk(goal)])
        .unwrap();
    assert_eq!(t0, TripID(0));
    assert_eq!(t1, TripID(1));
    assert_eq!(tm.trips.len(), 2);
    assert_eq!(tm.trips[1].ped, PedestrianID(2));
}

#[test]
fn register_twice_is_fatal() {
    let map = test_map();
    let mut tm = TripManager::new();
    let goal = SidewalkSpot::building(BuildingID(1), &map);
    let tid = tm
        .new_trip(&map, PedestrianID(1), BuildingID(0), BuildingID(1), vec![TripLeg::Walk(goal)])
        .unwrap();
    let agent = AgentID::Pedestrian(PedestrianID(1));
    assert_eq!(tm.agent_starting_trip_leg(agent, tid), Ok(()));
    assert_eq!(
        tm.agent_starting_trip_leg(agent, tid),
        Err(TripError::AgentAlreadyActive { agent, trip: tid })
    );
}

#[test]
fn register_unknown_trip_is_fatal() {
    let mut tm = TripManager::new();
    let agent = AgentID::Car(CarID(3));
    assert_eq!(
        tm.agent_starting_trip_leg(agent, TripID(99)),
        Err(TripError::UnknownTrip { trip: TripID(99) })
    );
}

#[test]
fn transitions_on_inactive_agent_are_fatal() {
    let mut tm = TripManager::new();
    let car = AgentID::Car(CarID(5));
    let ped = AgentID::Pedestrian(PedestrianID(6));
    assert_eq!(
        tm.car_reached_parking_spot(CarID(5)),
        Err(TripError::AgentNotActive { agent: car })
    );
    assert_eq!(
        tm.ped_reached_parking_spot(PedestrianID(6)),
        Err(TripError::AgentNotActive { agent: ped })
    );
    assert_eq!(
        tm.should_ped_board_bus(PedestrianID(6), RouteID(1)),
        Err(TripError::AgentNotActive { agent: ped })
    );
    assert_eq!(
        tm.should_ped_leave_bus(PedestrianID(6), stop_a()),
        Err(TripError::AgentNotActive { agent: ped })
    );
    assert_eq!(
        tm.ped_finished_bus_ride(PedestrianID(6)),
        Err(TripError::AgentNotActive { agent: ped })
    );
}

/// A whole driving trip: walk to the car, drive, walk to the goal. After
/// each parking transition the uncovered front leg has the one legal mode.
#[test]
fn driving_trip_walk_drive_walk() {
    let map = test_map();
    let mut tm = TripManager::new();
    let ped = PedestrianID(1);
    let car = CarID(7);
    let goal = SidewalkSpot::building(BuildingID(1), &map);
    let car_spot = SidewalkSpot::bus_stop(stop_a());
    let legs = vec![
        TripLeg::Walk(car_spot),
        TripLeg::Drive(ParkedCar { car, spot: ParkingSpot { lane: LaneID(20), idx: 7 } }, BuildingID(1)),
        TripLeg::Walk(goal),
    ];
    let tid = tm.new_trip(&map, ped, BuildingID(0), BuildingID(1), legs).unwrap();

    tm.agent_starting_trip_leg(AgentID::Pedestrian(ped), tid).unwrap();
    let (t, drive_to) = tm.ped_reached_parking_spot(ped).unwrap();
    assert_eq!(t, tid);
    assert_eq!(drive_to, BuildingID(1));
    // The walk was consumed; the new front leg is the drive.
    assert_eq!(tm.trips[0].legs.len(), 2);
    assert!(matches!(tm.trips[0].legs[0], TripLeg::Drive(_, _)));
    // The pedestrian was unregistered.
    assert!(!tm.active_trip_mode.contains_key(&agent_key(AgentID::Pedestrian(ped))));

    tm.agent_starting_trip_leg(AgentID::Car(car), tid).unwrap();
    let (t, p, walk_to) = tm.car_reached_parking_spot(car).unwrap();
    assert_eq!(t, tid);
    assert_eq!(p, ped);
    assert_eq!(walk_to, goal);
    // The drive was consumed; the new front leg is the final walk.
    assert_eq!(tm.trips[0].legs.len(), 1);
    assert!(matches!(tm.trips[0].legs[0], TripLeg::Walk(_)));
    assert!(tm.active_trip_mode.is_empty());
}

#[test]
fn car_reached_with_wrong_car_is_fatal() {
    let map = test_map();
    let mut tm = TripManager::new();
    let goal = SidewalkSpot::building(BuildingID(1), &map);
    let legs = vec![TripLeg::Drive(parked(1), BuildingID(1)), TripLeg::Walk(goal)];
    let tid = tm.new_trip(&map, PedestrianID(1), BuildingID(0), BuildingID(1), legs).unwrap();
    // Register the wrong car as the driver, then report it parked.
    tm.agent_starting_trip_leg(AgentID::Car(CarID(2)), tid).unwrap();
    assert_eq!(
        tm.car_reached_parking_spot(CarID(2)),
        Err(TripError::WrongCar { trip: tid, expected: CarID(1), actual: CarID(2) })
    );
    // Nothing was consumed.
    assert_eq!(tm.trips[0].legs.len(), 2);
    assert!(tm.active_trip_mode.contains_key(&agent_key(AgentID::Car(CarID(2)))));
}

#[test]
fn car_reached_on_walking_leg_is_fatal() {
    let map = test_map();
    let mut tm = TripManager::new();
    let goal = SidewalkSpot::building(BuildingID(1), &map);
    let legs = vec![TripLeg::Walk(goal)];
    let tid = tm.new_trip(&map, PedestrianID(1), BuildingID(0), BuildingID(1), legs).unwrap();
    tm.agent_starting_trip_leg(AgentID::Car(CarID(4)), tid).unwrap();
    assert!(matches!(
        tm.car_reached_parking_spot(CarID(4)),
        Err(TripError::NotDriveLeg { trip: TripID(0), .. })
    ));
}

#[test]
fn car_reached_without_following_walk_is_fatal() {
    let map = test_map();
    let mut tm = TripManager::new();
    let goal = SidewalkSpot::building(BuildingID(1), &map);
    let legs = vec![
        TripLeg::Drive(parked(1), BuildingID(1)),
        TripLeg::RideBus(RouteID(5), stop_b()),
        TripLeg::Walk(goal),
    ];
    let tid = tm.new_trip(&map, PedestrianID(1), BuildingID(0), BuildingID(1), legs).unwrap();
    tm.agent_starting_trip_leg(AgentID::Car(CarID(1)), tid).unwrap();
    assert!(matches!(
        tm.car_reached_parking_spot(CarID(1)),
        Err(TripError::NotWalkLeg { trip: TripID(0), .. })
    ));
    assert_eq!(tm.trips[0].legs.len(), 3);
}

#[test]
fn ped_reached_with_single_leg_is_fatal() {
    let map = test_map();
    let mut tm = TripManager::new();
    let goal = SidewalkSpot::building(BuildingID(1), &map);
    let legs = vec![TripLeg::Walk(goal)];
    let tid = tm.new_trip(&map, PedestrianID(1), BuildingID(0), BuildingID(1), legs).unwrap();
    tm.agent_starting_trip_leg(AgentID::Pedestrian(PedestrianID(1)), tid).unwrap();
    assert_eq!(
        tm.ped_reached_parking_spot(PedestrianID(1)),
        Err(TripError::NoRemainingLegs { trip: tid })
    );
    assert_eq!(tm.trips[0].legs.len(), 1);
}

/// Asking about the wrong bus mutates nothing, however often it is asked;
/// the right bus consumes exactly the walk-to-the-stop leg.
#[test]
fn boarding_wrong_route_never_mutates() {
    let map = test_map();
    let mut tm = TripManager::new();
    let ped = PedestrianID(2);
    let goal = SidewalkSpot::building(BuildingID(1), &map);
    let legs = vec![
        TripLeg::Walk(SidewalkSpot::bus_stop(stop_a())),
        TripLeg::RideBus(RouteID(5), stop_b()),
        TripLeg::Walk(goal),
    ];
    let tid = tm.new_trip(&map, ped, BuildingID(0), BuildingID(1), legs).unwrap();
    tm.agent_starting_trip_leg(AgentID::Pedestrian(ped), tid).unwrap();

    for _ in 0..5 {
        assert_eq!(tm.should_ped_board_bus(ped, RouteID(6)), Ok(false));
        assert_eq!(tm.trips[0].legs.len(), 3);
        assert!(tm.active_trip_mode.contains_key(&agent_key(AgentID::Pedestrian(ped))));
    }

    assert_eq!(tm.should_ped_board_bus(ped, RouteID(5)), Ok(true));
    assert_eq!(tm.trips[0].legs.len(), 2);
    // Transit keeps tracking the rider by pedestrian identity.
    assert!(tm.active_trip_mode.contains_key(&agent_key(AgentID::Pedestrian(ped))));
}

#[test]
fn boarding_without_second_leg_is_fatal() {
    let map = test_map();
    let mut tm = TripManager::new();
    let goal = SidewalkSpot::building(BuildingID(1), &map);
    let legs = vec![TripLeg::Walk(goal)];
    let tid = tm.new_trip(&map, PedestrianID(1), BuildingID(0), BuildingID(1), legs).unwrap();
    tm.agent_starting_trip_leg(AgentID::Pedestrian(PedestrianID(1)), tid).unwrap();
    assert_eq!(
        tm.should_ped_board_bus(PedestrianID(1), RouteID(5)),
        Err(TripError::NoSecondLeg { trip: tid })
    );
}

#[test]
fn boarding_when_second_leg_is_not_a_bus_is_fatal() {
    let map = test_map();
    let mut tm = TripManager::new();
    let goal = SidewalkSpot::building(BuildingID(1), &map);
    let legs = vec![
        TripLeg::Walk(SidewalkSpot::bus_stop(stop_a())),
        TripLeg::Drive(parked(1), BuildingID(1)),
        TripLeg::Walk(goal),
    ];
    let tid = tm.new_trip(&map, PedestrianID(1), BuildingID(0), BuildingID(1), legs).unwrap();
    tm.agent_starting_trip_leg(AgentID::Pedestrian(PedestrianID(1)), tid).unwrap();
    assert!(matches!(
        tm.should_ped_board_bus(PedestrianID(1), RouteID(5)),
        Err(TripError::NotRideBusLeg { trip: TripID(0), .. })
    ));
}

#[test]
fn leave_bus_on_walking_leg_is_fatal() {
    let map = test_map();
    let mut tm = TripManager::new();
    let goal = SidewalkSpot::building(BuildingID(1), &map);
    let legs = vec![TripLeg::Walk(goal)];
    let tid = tm.new_trip(&map, PedestrianID(1), BuildingID(0), BuildingID(1), legs).unwrap();
    tm.agent_starting_trip_leg(AgentID::Pedestrian(PedestrianID(1)), tid).unwrap();
    assert!(matches!(
        tm.should_ped_leave_bus(PedestrianID(1), stop_b()),
        Err(TripError::NotRideBusLeg { trip: TripID(0), .. })
    ));
}

/// The end-to-end bus scenario: walk to stop A, ride route 5 to stop B,
/// walk to the goal.
#[test]
fn bus_trip_end_to_end() {
    let map = test_map();
    let mut tm = TripManager::new();
    let ped = PedestrianID(3);
    let goal = SidewalkSpot::building(BuildingID(1), &map);
    let legs = vec![
        TripLeg::Walk(SidewalkSpot::bus_stop(stop_a())),
        TripLeg::RideBus(RouteID(5), stop_b()),
        TripLeg::Walk(goal),
    ];
    let tid = tm.new_trip(&map, ped, BuildingID(0), BuildingID(1), legs).unwrap();
    tm.agent_starting_trip_leg(AgentID::Pedestrian(ped), tid).unwrap();

    // The right bus arrives: boarding consumes the walk, leaving 2 legs.
    assert_eq!(tm.should_ped_board_bus(ped, RouteID(5)), Ok(true));
    assert_eq!(tm.trips[0].legs.len(), 2);

    // Not the rider's stop yet; then the right one.
    assert_eq!(tm.should_ped_leave_bus(ped, stop_a()), Ok(false));
    assert_eq!(tm.trips[0].legs.len(), 2);
    assert_eq!(tm.should_ped_leave_bus(ped, stop_b()), Ok(true));

    // Disembarking consumes the ride and hands back the final walk.
    let (t, walk_to) = tm.ped_finished_bus_ride(ped).unwrap();
    assert_eq!(t, tid);
    assert_eq!(walk_to, goal);
    assert_eq!(tm.trips[0].legs.len(), 1);
    assert!(matches!(tm.trips[0].legs[0], TripLeg::Walk(_)));
    // The spawner will re-register the pedestrian for the final walk; the
    // trip completes when that walk ends, outside this core.
    assert!(tm.active_trip_mode.is_empty());
}

/// An agent is never tracked twice, and each agent's entry matches the leg
/// it is animating.
#[test]
fn active_map_tracks_each_agent_at_most_once() {
    let map = test_map();
    let mut tm = TripManager::new();
    let goal = SidewalkSpot::building(BuildingID(1), &map);
    let t0 = tm
        .new_trip(
            &map,
            PedestrianID(1),
            BuildingID(0),
            BuildingID(1),
            vec![TripLeg::Drive(parked(8), BuildingID(1)), TripLeg::Walk(goal)],
        )
        .unwrap();
    let t1 = tm
        .new_trip(&map, PedestrianID(2), BuildingID(0), BuildingID(1), vec![TripLeg::Walk(goal)])
        .unwrap();
    tm.agent_starting_trip_leg(AgentID::Car(CarID(8)), t0).unwrap();
    tm.agent_starting_trip_leg(AgentID::Pedestrian(PedestrianID(2)), t1).unwrap();
    assert_eq!(tm.active_trip_mode.len(), 2);
    // Re-registering either is refused, so no agent appears twice.
    assert!(tm.agent_starting_trip_leg(AgentID::Car(CarID(8)), t1).is_err());
    assert!(tm
        .agent_starting_trip_leg(AgentID::Pedestrian(PedestrianID(2)), t0)
        .is_err());
    assert_eq!(tm.active_trip_mode.len(), 2);
    assert_eq!(tm.active_trip_mode[&agent_key(AgentID::Car(CarID(8)))], t0);
    assert_eq!(
        tm.active_trip_mode[&agent_key(AgentID::Pedestrian(PedestrianID(2)))],
        t1
    );
}

#[test]
fn get_trip_using_car_finds_first_match() {
    let map = test_map();
    let mut tm = TripManager::new();
    let goal = SidewalkSpot::building(BuildingID(1), &map);
    let _t0 = tm
        .new_trip(&map, PedestrianID(1), BuildingID(0), BuildingID(1), vec![TripLeg::Walk(goal)])
        .unwrap();
    let t1 = tm
        .new_trip(
            &map,
            PedestrianID(2),
            BuildingID(0),
            BuildingID(1),
            vec![TripLeg::Drive(parked(9), BuildingID(1)), TripLeg::Walk(goal)],
        )
        .unwrap();
    let _t2 = tm
        .new_trip(
            &map,
            PedestrianID(3),
            BuildingID(0),
            BuildingID(1),
            vec![TripLeg::Drive(parked(9), BuildingID(1)), TripLeg::Walk(goal)],
        )
        .unwrap();
    assert_eq!(tm.get_trip_using_car(CarID(9)), Some(t1));
    assert_eq!(tm.get_trip_using_car(CarID(99)), None);
}

#[test]
fn leg_uses_car() {
    assert!(TripLeg::Drive(parked(1), BuildingID(0)).uses_car(CarID(1)));
    assert!(!TripLeg::Drive(parked(1), BuildingID(0)).uses_car(CarID(2)));
    assert!(!TripLeg::RideBus(RouteID(1), stop_a()).uses_car(CarID(1)));
}
