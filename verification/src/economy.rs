//! The rules of one tick, stated over the mathematical model of a match.
//!
//! A tick makes three passes over the units, each in list order, and then
//! clamps the pools to the storage. The order is part of the rules: where a
//! pool cannot serve every unit, the units that come first are served.

use vstd::prelude::*;
use crate::fixed::{difference, greatest, least, ratio, scaled, scaled_up, sum, SCALE};
use crate::unit::UnitView;

verus! {

/// The two global pools.
pub struct Pools {
    pub energy: int,
    pub metal: int,
}

/// The energy pool after the unit `u` has produced for `dt`.
///
/// What a unit draws from the wind is capped by the wind's strength, for each
/// unit on its own.
pub open spec fn produce(u: UnitView, wind: int, dt: int, energy: int) -> int {
    if u.alive {
        sum(sum(energy, scaled(dt, u.e_per_second)), scaled(dt, least(u.wind_e_per_second, wind)))
    } else {
        energy
    }
}

/// The energy pool after all of `units` have produced, in list order.
pub open spec fn production(units: Seq<UnitView>, wind: int, dt: int, energy: int) -> int
    decreases units.len(),
{
    if units.len() == 0 {
        energy
    } else {
        produce(units.last(), wind, dt, production(units.drop_last(), wind, dt, energy))
    }
}

/// The pools after the unit `u` has asked for its upkeep for `dt`.
///
/// The unit is served only if the pool holds more energy than it needs; then
/// it pays and makes its metal. Otherwise it stalls: it pays nothing and makes
/// nothing.
pub open spec fn consume(u: UnitView, dt: int, pools: Pools) -> Pools {
    let need = scaled(dt, u.e_cost_per_second);
    if u.alive && pools.energy > need {
        Pools {
            energy: difference(pools.energy, need),
            metal: sum(pools.metal, scaled(dt, u.m_per_second)),
        }
    } else {
        pools
    }
}

/// The pools after all of `units` have asked for their upkeep, in list order.
pub open spec fn consumption(units: Seq<UnitView>, dt: int, pools: Pools) -> Pools
    decreases units.len(),
{
    if units.len() == 0 {
        pools
    } else {
        consume(units.last(), dt, consumption(units.drop_last(), dt, pools))
    }
}

/// Whether the unit at `k` is served in the consumption pass that starts with
/// `pools`: it is alive, and the units before it leave more energy than it
/// needs.
pub open spec fn served(units: Seq<UnitView>, dt: int, pools: Pools, k: int) -> bool {
    &&& units[k].alive
    &&& consumption(units.take(k), dt, pools).energy > scaled(dt, units[k].e_cost_per_second)
}

/// The units and the pools during the build pass.
pub struct Site {
    pub units: Seq<UnitView>,
    pub pools: Pools,
}

/// The fraction of `target` that is still to be built, by the metal banked in
/// it.
pub open spec fn remaining(target: UnitView) -> int {
    difference(SCALE as int, ratio(target.metal, SCALE as int, target.m_build_cost))
}

/// The fraction of `target` that `builder` builds in `dt`: what its build
/// power gives, but no more than is still to be built.
pub open spec fn build_step(builder: UnitView, target: UnitView, dt: int) -> int {
    least(ratio(dt, builder.buildpower, target.buildtime), remaining(target))
}

/// What a target that has `banked` of a resource still lacks of its `cost`:
/// nothing, if it holds the cost or more.
pub open spec fn lacking(cost: int, banked: int) -> int {
    greatest(difference(cost, banked), 0)
}

/// What the fraction `step` of a target takes of a resource: that fraction of
/// the `cost`, rounded up to the next millionth, but no more than the target
/// still lacks.
///
/// Rounded up, a step that builds anything is paid for, and brings a target
/// of any cost nearer to its completion; capped, no step banks more in a
/// target than it costs.
pub open spec fn share(step: int, cost: int, banked: int) -> int {
    least(scaled_up(step, cost), lacking(cost, banked))
}

/// `target` with `metal` and `energy` more banked in it.
pub open spec fn credited(target: UnitView, metal: int, energy: int) -> UnitView {
    UnitView { metal: sum(target.metal, metal), energy: sum(target.energy, energy), ..target }
}

/// `builder` without a target.
pub open spec fn released(builder: UnitView) -> UnitView {
    UnitView { build_target: None, ..builder }
}

/// The site after the unit at `i` has built for `dt`.
///
/// Only a unit that is alive and has a target builds. The step's shares of
/// the target's costs are paid only if each pool holds more than its share:
/// then both shares move from the pools into the target; otherwise nothing
/// moves. Where the step is all that was still to be built, the target is
/// completed and the builder is released.
pub open spec fn build(site: Site, i: int, dt: int) -> Site {
    let builder = site.units[i];
    if builder.alive && builder.build_target is Some {
        let t = builder.build_target->0;
        let target = site.units[t];
        let step = build_step(builder, target, dt);
        let metal = share(step, target.m_build_cost, target.metal);
        let energy = share(step, target.e_build_cost, target.energy);
        let paid = if metal < site.pools.metal && energy < site.pools.energy {
            Site {
                units: site.units.update(t, credited(target, metal, energy)),
                pools: Pools {
                    energy: difference(site.pools.energy, energy),
                    metal: difference(site.pools.metal, metal),
                },
            }
        } else {
            site
        };
        if step == remaining(target) {
            let completed = paid.units.update(t, paid.units[t].constructed());
            Site { units: completed.update(i, released(completed[i])), pools: paid.pools }
        } else {
            paid
        }
    } else {
        site
    }
}

/// The site after the units before `n` have built, in list order.
pub open spec fn build_pass(site: Site, dt: int, n: nat) -> Site
    decreases n,
{
    if n == 0 {
        site
    } else {
        build(build_pass(site, dt, (n - 1) as nat), n - 1, dt)
    }
}

/// Whether every build target can be built on: it is a unit of the list, and
/// its build time and its metal cost, by which the rules divide, are not 0.
pub open spec fn targets_valid(units: Seq<UnitView>) -> bool {
    forall|i: int|
        0 <= i < units.len() && (#[trigger] units[i]).build_target is Some ==> target_valid(
            units,
            units[i].build_target->0,
        )
}

/// Whether `t` is a unit of the list that can be built on.
pub open spec fn target_valid(units: Seq<UnitView>, t: int) -> bool {
    &&& 0 <= t < units.len()
    &&& units[t].buildtime != 0
    &&& units[t].m_build_cost != 0
}

/// Whether construction can only go forward: no unit has a build power below
/// 0, and every build target takes a time and a metal cost above 0 and an
/// energy cost of 0 or more.
pub open spec fn builds_forward(units: Seq<UnitView>) -> bool {
    &&& forall|i: int| 0 <= i < units.len() ==> (#[trigger] units[i]).buildpower >= 0
    &&& forall|i: int|
        0 <= i < units.len() && (#[trigger] units[i]).build_target is Some ==> {
            let target = units[units[i].build_target->0];
            &&& target.buildtime > 0
            &&& target.m_build_cost > 0
            &&& target.e_build_cost >= 0
        }
}

/// Whether what is banked in each unit agrees with its state.
pub open spec fn all_within_cost(units: Seq<UnitView>) -> bool {
    forall|i: int| 0 <= i < units.len() ==> (#[trigger] units[i]).within_cost()
}

/// Whether no unit of `after` holds less metal or less energy than the unit
/// in its place in `before`.
pub open spec fn nothing_taken(before: Seq<UnitView>, after: Seq<UnitView>) -> bool {
    forall|j: int|
        0 <= j < before.len() ==> {
            &&& before[j].metal <= (#[trigger] after[j]).metal
            &&& before[j].energy <= after[j].energy
        }
}

/// Whether every unit that is alive in `before` is alive in `after`, and holds
/// there what it held.
pub open spec fn alive_units_kept(before: Seq<UnitView>, after: Seq<UnitView>) -> bool {
    forall|j: int|
        0 <= j < before.len() && (#[trigger] before[j]).alive ==> {
            &&& after[j].alive
            &&& after[j].metal == before[j].metal
            &&& after[j].energy == before[j].energy
        }
}

/// Whether no build target holds more metal than the whole of it takes: of
/// each, a fraction of 0 or more is still to be built.
pub open spec fn no_target_overbuilt(units: Seq<UnitView>) -> bool {
    forall|i: int|
        0 <= i < units.len() && (#[trigger] units[i]).build_target is Some ==> remaining(
            units[units[i].build_target->0],
        ) >= 0
}

/// Whether every target of a unit that is alive is incomplete: of each, a
/// fraction above 0 is still to be built.
pub open spec fn targets_incomplete(units: Seq<UnitView>) -> bool {
    forall|i: int|
        0 <= i < units.len() && (#[trigger] units[i]).alive && units[i].build_target is Some
            ==> remaining(units[units[i].build_target->0]) > 0
}

/// Whether `after` holds the units of `before`, each at a later time: the
/// same units in the same order, and alive if they were alive.
pub open spec fn same_units(before: Seq<UnitView>, after: Seq<UnitView>) -> bool {
    &&& after.len() == before.len()
    &&& forall|j: int|
        0 <= j < before.len() ==> {
            &&& (#[trigger] before[j]).same_unit(after[j])
            &&& before[j].alive ==> after[j].alive
        }
}

/// The metal storage: `base` and the storage of each unit that is alive,
/// added up in list order.
pub open spec fn metal_capacity(units: Seq<UnitView>, base: int) -> int
    decreases units.len(),
{
    if units.len() == 0 {
        base
    } else {
        let before = metal_capacity(units.drop_last(), base);
        if units.last().alive {
            sum(before, units.last().m_storage)
        } else {
            before
        }
    }
}

/// The energy storage: `base` and the storage of each unit that is alive,
/// added up in list order.
pub open spec fn energy_capacity(units: Seq<UnitView>, base: int) -> int
    decreases units.len(),
{
    if units.len() == 0 {
        base
    } else {
        let before = energy_capacity(units.drop_last(), base);
        if units.last().alive {
            sum(before, units.last().e_storage)
        } else {
            before
        }
    }
}

} // verus!
