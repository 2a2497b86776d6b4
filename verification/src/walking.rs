//! Points on the pedestrian network. A `SidewalkSpot` is where a walking leg
//! ends: somewhere on a sidewalk lane, connected to a building's front path
//! or to a bus stop. The map model here is the narrow slice the trip core
//! needs: which sidewalk position fronts each building.

use vstd::prelude::*;

use crate::ids::{BuildingID, LaneID};
use crate::units::Distance;

verus! {

/// A transit stop, identified by the sidewalk lane it sits on and its
/// position along that lane.
#[derive(Clone, Copy, Debug, PartialEq, Eq, Structural)]
pub struct BusStop {
    pub sidewalk: LaneID,
    pub dist_along: Distance,
}

/// What a sidewalk spot is connected to.
#[derive(Clone, Copy, Debug, PartialEq, Eq, Structural)]
pub enum SidewalkPOI {
    Building(BuildingID),
    BusStop(BusStop),
}

/// A point on the sidewalk network used as a walking leg's destination.
#[derive(Clone, Copy, Debug, PartialEq, Eq, Structural)]
pub struct SidewalkSpot {
    pub connection: SidewalkPOI,
    pub sidewalk: LaneID,
    pub dist_along: Distance,
}

/// The sidewalk position at the end of one building's front path.
#[derive(Clone, Copy, Debug, PartialEq, Eq, Structural)]
pub struct BuildingFront {
    pub sidewalk: LaneID,
    pub dist_along: Distance,
}

/// The slice of the street map the trip core reads: for each building, the
/// sidewalk position its front path reaches. Buildings are numbered densely,
/// so `BuildingID(i)` fronts onto `fronts[i]`.
pub struct MapModel {
    pub fronts: Vec<BuildingFront>,
}

impl MapModel {
    pub open spec fn has_building(self, b: BuildingID) -> bool {
        b.0 < self.fronts@.len()
    }

    /// The sidewalk spot associated with a building's front path.
    pub open spec fn spec_building_spot(self, b: BuildingID) -> SidewalkSpot
        recommends
            self.has_building(b),
    {
        SidewalkSpot {
            connection: SidewalkPOI::Building(b),
            sidewalk: self.fronts@[b.0 as int].sidewalk,
            dist_along: self.fronts@[b.0 as int].dist_along,
        }
    }

    pub fn new(fronts: Vec<BuildingFront>) -> (m: MapModel)
        ensures
            m.fronts == fronts,
    {
        MapModel { fronts }
    }
}

impl SidewalkSpot {
    /// The spot at the sidewalk end of `bldg`'s front path.
    pub fn building(bldg: BuildingID, map: &MapModel) -> (s: SidewalkSpot)
        requires
            map.has_building(bldg),
        ensures
            s == map.spec_building_spot(bldg),
    {
        let front: &BuildingFront = &map.fronts[bldg.0];
        SidewalkSpot {
            connection: SidewalkPOI::Building(bldg),
            sidewalk: front.sidewalk,
            dist_along: front.dist_along,
        }
    }

    /// The spot at a bus stop.
    pub fn bus_stop(stop: BusStop) -> (s: SidewalkSpot)
        ensures
            s.connection == SidewalkPOI::BusStop(stop),
            s.sidewalk == stop.sidewalk,
            s.dist_along == stop.dist_along,
    {
        SidewalkSpot {
            connection: SidewalkPOI::BusStop(stop),
            sidewalk: stop.sidewalk,
            dist_along: stop.dist_along,
        }
    }
}

} // verus!
