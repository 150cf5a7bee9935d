//! What holds of every tick.

use vstd::prelude::*;
use crate::economy::{
    alive_units_kept, all_within_cost, build, build_pass, build_step, builds_forward,
    consumption, no_target_overbuilt, nothing_taken, production, remaining, same_units, served,
    target_valid, targets_incomplete, targets_valid, Pools, Site,
};
use crate::fixed::{least, scaled};
use crate::game_state::{GameState, GameStateView};
use crate::lemmas::{
    lemma_build_pass_keeps_units, lemma_build_pass_nonnegative, lemma_build_pass_within_cost,
    lemma_build_pass_zero, lemma_capacity_nonnegative, lemma_consumption_energy_falls,
    lemma_consumption_nonnegative, lemma_consumption_zero, lemma_fraction_built,
    lemma_nothing_remains, lemma_production_nonnegative, lemma_production_zero,
    lemma_ratio_nonnegative, lemma_state_fits,
};
use crate::unit::UnitView;

verus! {

/// A tick adds and removes no unit and changes no unit's place. It leaves a
/// unit what it is but for what construction changes, a unit that is alive
/// stays alive, and the targets stay valid. The templates, the parameters and
/// the wind are not touched.
pub proof fn law_tick_keeps_units(state: GameStateView, dt: int)
    requires
        state.targets_valid(),
    ensures
        same_units(state.units, state.tick(dt).units),
        state.tick(dt).targets_valid(),
        state.tick(dt).unit_catalog == state.unit_catalog,
        state.tick(dt).world_params == state.world_params,
        state.tick(dt).wind_strength == state.wind_strength,
{
    let produced = production(state.units, state.wind_strength, dt, state.energy);
    let consumed = consumption(state.units, dt, Pools { energy: produced, metal: state.metal });
    lemma_build_pass_keeps_units(
        Site { units: state.units, pools: consumed },
        dt,
        state.units.len(),
    );
}

/// The units that come first are served first: where no upkeep is below 0
/// and the tick's length is not negative, if a unit is served, then every
/// unit before it that is alive and needs no more energy is served too.
pub proof fn law_earlier_units_are_served_first(
    units: Seq<UnitView>,
    dt: int,
    pools: Pools,
    earlier: int,
    later: int,
)
    requires
        0 <= earlier < later < units.len(),
        dt >= 0,
        forall|k: int| 0 <= k < units.len() ==> (#[trigger] units[k]).e_cost_per_second >= 0,
        units[earlier].alive,
        scaled(dt, units[earlier].e_cost_per_second) <= scaled(
            dt,
            units[later].e_cost_per_second,
        ),
        served(units, dt, pools, later),
    ensures
        served(units, dt, pools, earlier),
{
    lemma_consumption_energy_falls(units, dt, pools, earlier, later);
}

/// The pools never go below 0: where nothing that the pools depend on is
/// below 0, a tick of a length that is not negative leaves it so. Upkeep and
/// building are paid only out of what the pools hold.
pub proof fn law_pools_stay_nonnegative(state: GameStateView, dt: int)
    requires
        state.targets_valid(),
        state.nonnegative(),
        dt >= 0,
    ensures
        state.tick(dt).nonnegative(),
        state.tick(dt).energy >= 0,
        state.tick(dt).metal >= 0,
{
    let produced = production(state.units, state.wind_strength, dt, state.energy);
    let start = Pools { energy: produced, metal: state.metal };
    let consumed = consumption(state.units, dt, start);
    let site = Site { units: state.units, pools: consumed };
    let built = build_pass(site, dt, state.units.len());
    lemma_production_nonnegative(state.units, state.wind_strength, dt, state.energy);
    lemma_consumption_nonnegative(state.units, dt, start);
    lemma_build_pass_nonnegative(site, dt, state.units.len());
    lemma_build_pass_keeps_units(site, dt, state.units.len());
    assert forall|i: int| 0 <= i < built.units.len() implies (#[trigger] built.units[i])
        .drains_nothing() by {
        assert(state.units[i].same_unit(built.units[i]));
        assert(state.units[i].drains_nothing());
    }
    lemma_capacity_nonnegative(built.units, state.world_params.base_metal_storage as int);
    lemma_capacity_nonnegative(built.units, state.world_params.base_energy_storage as int);
}

/// A target that holds metal from 0 up to its cost is not overbuilt: where
/// what is banked in each unit agrees with its state and every target costs
/// more than 0 metal, no target is overbuilt.
pub proof fn law_within_cost_is_not_overbuilt(units: Seq<UnitView>)
    requires
        targets_valid(units),
        all_within_cost(units),
        forall|i: int|
            0 <= i < units.len() && (#[trigger] units[i]).build_target is Some
                ==> units[units[i].build_target->0].m_build_cost > 0,
    ensures
        no_target_overbuilt(units),
{
    assert forall|i: int|
        0 <= i < units.len() && (#[trigger] units[i]).build_target is Some implies remaining(
        units[units[i].build_target->0],
    ) >= 0 by {
        let t = units[i].build_target->0;
        assert(target_valid(units, t));
        assert(units[t].within_cost());
        lemma_fraction_built(units[t].metal, units[t].m_build_cost);
    }
}

/// A tick of length 0 leaves the time as it is, and does nothing to a pool
/// but clamp it to the storage, in a state whose targets are valid and hold
/// no more metal than they cost.
///
/// (Such a tick may still complete a target that holds all its metal, and
/// the storage is the one that the units give after that.)
pub proof fn law_zero_tick_only_clamps(state: GameState)
    requires
        state@.targets_valid(),
        no_target_overbuilt(state@.units),
    ensures
        state@.tick(0).time == state@.time,
        state@.tick(0).energy == least(state@.energy, state@.tick(0).energy_storage()),
        state@.tick(0).metal == least(state@.metal, state@.tick(0).metal_storage()),
{
    let pools = Pools { energy: state@.energy, metal: state@.metal };
    lemma_state_fits(state);
    lemma_production_zero(state@.units, state@.wind_strength, state@.energy);
    lemma_consumption_zero(state@.units, pools);
    lemma_build_pass_zero(Site { units: state@.units, pools }, state@.units.len());
}

/// A tick of length 0 changes nothing, in a state whose pools are within the
/// storage, and whose targets are valid and, where the builder is alive,
/// incomplete.
pub proof fn law_zero_tick_changes_nothing(state: GameState)
    requires
        state@.targets_valid(),
        no_target_overbuilt(state@.units),
        targets_incomplete(state@.units),
        state@.energy <= state@.energy_storage(),
        state@.metal <= state@.metal_storage(),
    ensures
        state@.tick(0) == state@,
{
    let pools = Pools { energy: state@.energy, metal: state@.metal };
    lemma_state_fits(state);
    lemma_production_zero(state@.units, state@.wind_strength, state@.energy);
    lemma_consumption_zero(state@.units, pools);
    lemma_build_pass_zero(Site { units: state@.units, pools }, state@.units.len());
}

/// Construction goes forward and stops at the cost. In a state where no unit
/// has a build power below 0, every build target takes a time and a metal
/// cost above 0 and an energy cost of 0 or more, and what is banked in each
/// unit agrees with its state, a tick of a length that is not negative leaves
/// all that so: a unit that is alive holds exactly its cost, as before, and a
/// unit under construction holds of metal and of energy from 0 up to its
/// cost, and no less of either than before.
pub proof fn law_construction_stays_within_cost(state: GameState, dt: i64)
    requires
        state@.targets_valid(),
        builds_forward(state@.units),
        all_within_cost(state@.units),
        dt >= 0,
    ensures
        builds_forward(state@.tick(dt as int).units),
        all_within_cost(state@.tick(dt as int).units),
        nothing_taken(state@.units, state@.tick(dt as int).units),
        alive_units_kept(state@.units, state@.tick(dt as int).units),
{
    let produced = production(state@.units, state@.wind_strength, dt as int, state@.energy);
    let consumed = consumption(
        state@.units,
        dt as int,
        Pools { energy: produced, metal: state@.metal },
    );
    let site = Site { units: state@.units, pools: consumed };
    lemma_state_fits(state);
    lemma_build_pass_within_cost(site, dt as int, state@.units.len());
    lemma_build_pass_keeps_units(site, dt as int, state@.units.len());
    let after = state@.tick(dt as int).units;
    assert forall|j: int|
        0 <= j < state@.units.len() && (#[trigger] state@.units[j]).alive implies {
        &&& after[j].alive
        &&& after[j].metal == state@.units[j].metal
        &&& after[j].energy == state@.units[j].energy
    } by {
        assert(state@.units[j].same_unit(after[j]));
        assert(state@.units[j].within_cost());
        assert(after[j].within_cost());
    }
}

/// A target that is paid in full is completed: where a target holds all its
/// metal, the next step of a builder that is alive, has a build power that is
/// not below 0 and builds for a time that is not below 0 completes it and
/// releases the builder.
pub proof fn law_paid_target_is_completed(site: Site, builder: int, dt: int)
    requires
        targets_valid(site.units),
        0 <= builder < site.units.len(),
        site.units[builder].alive,
        site.units[builder].build_target is Some,
        site.units[builder].buildpower >= 0,
        dt >= 0,
        site.units[site.units[builder].build_target->0].buildtime > 0,
        site.units[site.units[builder].build_target->0].metal
            == site.units[site.units[builder].build_target->0].m_build_cost,
    ensures
        ({
            let t = site.units[builder].build_target->0;
            let after = build(site, builder, dt).units;
            &&& after[t].alive
            &&& after[t].metal == site.units[t].m_build_cost
            &&& after[t].energy == site.units[t].e_build_cost
            &&& after[builder].build_target is None
        }),
{
    let t = site.units[builder].build_target->0;
    let target = site.units[t];
    assert(target_valid(site.units, t));
    lemma_nothing_remains(target);
    lemma_ratio_nonnegative(dt, site.units[builder].buildpower, target.buildtime);
    assert(build_step(site.units[builder], target, dt) == 0);
}

/// After a tick neither pool holds more than the storage that the units then
/// give.
pub proof fn law_storage_clamp(state: GameStateView, dt: int)
    ensures
        state.tick(dt).energy <= state.tick(dt).energy_storage(),
        state.tick(dt).metal <= state.tick(dt).metal_storage(),
{
}

/// A tick of length `dt` advances the time by `dt`, whatever else it does:
/// whether or not a unit stalls or a step goes unpaid.
pub proof fn law_time_advances(state: GameStateView, dt: int)
    ensures
        state.tick(dt).time == state.time + dt,
        dt >= 0 ==> state.tick(dt).time >= state.time,
{
}

/// The state after one tick for each length in `dts`, in order.
pub open spec fn ticks(state: GameStateView, dts: Seq<int>) -> GameStateView
    decreases dts.len(),
{
    if dts.len() == 0 {
        state
    } else {
        ticks(state, dts.drop_last()).tick(dts.last())
    }
}

/// The sum of the lengths in `dts`.
pub open spec fn total(dts: Seq<int>) -> int
    decreases dts.len(),
{
    if dts.len() == 0 {
        0
    } else {
        total(dts.drop_last()) + dts.last()
    }
}

/// After any number of ticks the time is the time before and the sum of the
/// ticks' lengths.
pub proof fn law_time_is_sum_of_ticks(state: GameStateView, dts: Seq<int>)
    ensures
        ticks(state, dts).time == state.time + total(dts),
    decreases dts.len(),
{
    if dts.len() > 0 {
        law_time_is_sum_of_ticks(state, dts.drop_last());
    }
}

} // verus!
