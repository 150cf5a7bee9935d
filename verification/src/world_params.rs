//! Parameters that hold for a whole session.

use vstd::prelude::*;

verus! {

/// The constants of a session, as fixed-point numbers.
///
/// `decay_delay` and `decay_rate` are kept for a decay of health that no rule
/// of the economy reads.
#[derive(Clone, Copy, Debug, PartialEq, Eq)]
pub struct WorldParams {
    pub decay_delay: i64,
    pub decay_rate: i64,
    pub start_metal: i64,
    pub base_metal_storage: i64,
    pub start_energy: i64,
    pub base_energy_storage: i64,
}

impl WorldParams {
    /// The parameters of a standard match: a decay delay of 9, a decay rate of
    /// 0.03, 1000 of each resource at the start and a base storage of 500 for
    /// each.
    pub open spec fn standard() -> WorldParams {
        WorldParams {
            decay_delay: 9_000_000,
            decay_rate: 30_000,
            start_metal: 1_000_000_000,
            base_metal_storage: 500_000_000,
            start_energy: 1_000_000_000,
            base_energy_storage: 500_000_000,
        }
    }
}

impl Default for WorldParams {
    fn default() -> (r: Self)
        ensures
            r == WorldParams::standard(),
    {
        WorldParams {
            decay_delay: 9_000_000,
            decay_rate: 30_000,
            start_metal: 1_000_000_000,
            base_metal_storage: 500_000_000,
            start_energy: 1_000_000_000,
            base_energy_storage: 500_000_000,
        }
    }
}

} // verus!
