//! Configuration errors, all of which are meant to surface at startup.

use vstd::prelude::*;

verus! {

/// Why a configuration was rejected.
#[derive(Clone, Copy, Debug, PartialEq, Eq, Structural)]
pub enum ConfigError {
    /// A streaming buffer needs at least one region.
    NoRegions,
    /// The regions together exceed the addressable capacity.
    CapacityOverflow,
    /// The number of records emitted per frame differs from the capacity of
    /// the region that receives them.
    CapacityMismatch,
    /// A march period of zero leaves the sweep undefined.
    ZeroPeriod,
    /// Some vertex coordinate would not fit its record.
    CoordinateOverflow,
    /// The grid holds more instances than can be numbered or stored.
    TooManyInstances,
}

} // verus!
