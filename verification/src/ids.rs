//! Opaque integer identifiers handed across the simulation's subsystem
//! boundaries, and the `AgentID` sum type naming whichever entity is
//! currently moving.

use vstd::prelude::*;

verus! {

#[derive(Clone, Copy, Debug, PartialEq, Eq, Structural, PartialOrd, Ord, Hash)]
pub struct CarID(pub usize);

#[derive(Clone, Copy, Debug, PartialEq, Eq, Structural, PartialOrd, Ord, Hash)]
pub struct PedestrianID(pub usize);

#[derive(Clone, Copy, Debug, PartialEq, Eq, Structural, PartialOrd, Ord, Hash)]
pub struct TripID(pub usize);

#[derive(Clone, Copy, Debug, PartialEq, Eq, Structural, PartialOrd, Ord, Hash)]
pub struct RouteID(pub usize);

#[derive(Clone, Copy, Debug, PartialEq, Eq, Structural, PartialOrd, Ord, Hash)]
pub struct BuildingID(pub usize);

#[derive(Clone, Copy, Debug, PartialEq, Eq, Structural, PartialOrd, Ord, Hash)]
pub struct LaneID(pub usize);

#[derive(Clone, Copy, Debug, PartialEq, Eq, Structural, PartialOrd, Ord, Hash)]
pub struct IntersectionID(pub usize);

#[derive(Clone, Copy, Debug, PartialEq, Eq, Structural, PartialOrd, Ord, Hash)]
pub struct RoadID(pub usize);

/// An entity that can occupy exactly one simulation role at a time: either a
/// car or a pedestrian.
#[derive(Clone, Copy, Debug, PartialEq, Eq, Structural, PartialOrd, Ord, Hash)]
pub enum AgentID {
    Car(CarID),
    Pedestrian(PedestrianID),
}

/// Injective encoding of an agent into a single integer, used to key the
/// active-mover table. Cars sort before pedestrians and each kind sorts by
/// its own id, so the key order is exactly the derived `AgentID` order.
pub open spec fn spec_agent_key(a: AgentID) -> u128 {
    match a {
        AgentID::Car(c) => c.0 as u128,
        AgentID::Pedestrian(p) => (0x1_0000_0000_0000_0000 + p.0 as int) as u128,
    }
}

/// Two distinct agents always get distinct keys.
pub proof fn lemma_agent_key_injective(a: AgentID, b: AgentID)
    requires
        spec_agent_key(a) == spec_agent_key(b),
    ensures
        a == b,
{
}

/// Compute the active-mover table key of an agent.
pub fn agent_key(a: AgentID) -> (k: u128)
    ensures
        k == spec_agent_key(a),
{
    match a {
        AgentID::Car(c) => c.0 as u128,
        AgentID::Pedestrian(p) => 0x1_0000_0000_0000_0000u128 + (p.0 as u128),
    }
}

} // verus!
