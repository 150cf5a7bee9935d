//! The proofs that the laws of the tick rest on.

use vstd::prelude::*;
use crate::economy::{
    all_within_cost, build, build_pass, build_step, builds_forward, consumption, credited,
    energy_capacity, metal_capacity, no_target_overbuilt, nothing_taken, production, released,
    remaining, same_units, share, target_valid, targets_incomplete, targets_valid, Pools, Site,
};
use crate::fixed::{difference, least, ratio, scaled, scaled_up, SCALE};
use crate::game_state::GameState;
use crate::unit::UnitView;

verus! {

/// Nothing of a number is a whole number of nothing.
pub(crate) proof fn lemma_ratio_of_zero(b: int, c: int)
    requires
        c != 0,
    ensures
        ratio(0, b, c) == 0,
{
    assert(0 * b == 0) by (nonlinear_arith);
    assert(0int / c == 0 && 0int / (-c) == 0) by (nonlinear_arith)
        requires
            c != 0,
    ;
}

/// A share of 0 of anything is 0.
pub(crate) proof fn lemma_scaled_zero(b: int)
    ensures
        scaled(0, b) == 0,
{
    lemma_ratio_of_zero(b, SCALE as int);
}

/// A share of 0 of anything is 0, rounded up too.
pub(crate) proof fn lemma_scaled_up_zero(b: int)
    ensures
        scaled_up(0, b) == 0,
{
    assert(0 * b == 0) by (nonlinear_arith);
}

/// The product of two numbers that are not negative is not negative.
pub(crate) proof fn lemma_scaled_nonnegative(a: int, b: int)
    requires
        a >= 0,
        b >= 0,
    ensures
        scaled(a, b) >= 0,
{
    assert(a * b >= 0) by (nonlinear_arith)
        requires
            a >= 0,
            b >= 0,
    ;
    assert((a * b) / 1_000_000 >= 0);
}

/// A whole of anything is all of it: `m * SCALE / m` is `SCALE`.
pub(crate) proof fn lemma_ratio_of_whole(m: int)
    requires
        m != 0,
    ensures
        ratio(m, SCALE as int, m) == SCALE,
{
    assert((m * 1_000_000) / m == 1_000_000 && (-(m * 1_000_000)) / (-m) == 1_000_000)
        by (nonlinear_arith)
        requires
            m != 0,
    ;
}

/// A build step changes no index, build time or cost, and sets no target, so
/// the targets stay valid.
pub(crate) proof fn lemma_build_keeps_targets(site: Site, i: int, dt: int)
    requires
        targets_valid(site.units),
        0 <= i < site.units.len(),
    ensures
        build(site, i, dt).units.len() == site.units.len(),
        targets_valid(build(site, i, dt).units),
{
    let after = build(site, i, dt).units;
    assert forall|j: int| 0 <= j < after.len() && (#[trigger] after[j]).build_target is Some
        implies target_valid(after, after[j].build_target->0) by {
        assert(site.units[j].build_target == after[j].build_target);
        assert(target_valid(site.units, site.units[j].build_target->0));
    }
}

/// A build step leaves the units what they are.
pub(crate) proof fn lemma_build_keeps_units(site: Site, i: int, dt: int)
    requires
        targets_valid(site.units),
        0 <= i < site.units.len(),
    ensures
        same_units(site.units, build(site, i, dt).units),
{
    let after = build(site, i, dt).units;
    assert forall|j: int| 0 <= j < site.units.len() implies {
        &&& (#[trigger] site.units[j]).same_unit(after[j])
        &&& site.units[j].alive ==> after[j].alive
    } by {
        if site.units[i].build_target is Some {
            assert(target_valid(site.units, site.units[i].build_target->0));
        }
    }
}

/// The build pass leaves the units what they are, and the targets valid.
pub(crate) proof fn lemma_build_pass_keeps_units(site: Site, dt: int, n: nat)
    requires
        targets_valid(site.units),
        n <= site.units.len(),
    ensures
        same_units(site.units, build_pass(site, dt, n).units),
        targets_valid(build_pass(site, dt, n).units),
    decreases n,
{
    if n > 0 {
        let before = build_pass(site, dt, (n - 1) as nat);
        lemma_build_pass_keeps_units(site, dt, (n - 1) as nat);
        lemma_build_keeps_units(before, n - 1, dt);
        lemma_build_keeps_targets(before, n - 1, dt);
        let after = build(before, n - 1, dt).units;
        assert forall|j: int| 0 <= j < site.units.len() implies {
            &&& (#[trigger] site.units[j]).same_unit(after[j])
            &&& site.units[j].alive ==> after[j].alive
        } by {
            assert(site.units[j].same_unit(before.units[j]));
            assert(before.units[j].same_unit(after[j]));
        }
    }
}

/// Production by units that drain nothing, over a time and in a wind that are
/// not negative, leaves the energy pool at 0 or above.
pub(crate) proof fn lemma_production_nonnegative(
    units: Seq<UnitView>,
    wind: int,
    dt: int,
    energy: int,
)
    requires
        energy >= 0,
        dt >= 0,
        wind >= 0,
        forall|i: int| 0 <= i < units.len() ==> (#[trigger] units[i]).drains_nothing(),
    ensures
        production(units, wind, dt, energy) >= 0,
    decreases units.len(),
{
    if units.len() > 0 {
        lemma_production_nonnegative(units.drop_last(), wind, dt, energy);
        let u = units.last();
        assert(u.drains_nothing());
        lemma_scaled_nonnegative(dt, u.e_per_second);
        lemma_scaled_nonnegative(dt, if u.wind_e_per_second <= wind {
            u.wind_e_per_second
        } else {
            wind
        });
    }
}

/// Consumption by units that drain nothing, over a time that is not negative,
/// leaves both pools at 0 or above: a unit pays only what the pool holds.
pub(crate) proof fn lemma_consumption_nonnegative(units: Seq<UnitView>, dt: int, pools: Pools)
    requires
        pools.energy >= 0,
        pools.metal >= 0,
        dt >= 0,
        forall|i: int| 0 <= i < units.len() ==> (#[trigger] units[i]).drains_nothing(),
    ensures
        consumption(units, dt, pools).energy >= 0,
        consumption(units, dt, pools).metal >= 0,
    decreases units.len(),
{
    if units.len() > 0 {
        lemma_consumption_nonnegative(units.drop_last(), dt, pools);
        let u = units.last();
        assert(u.drains_nothing());
        lemma_scaled_nonnegative(dt, u.m_per_second);
    }
}

/// Where no upkeep is below 0, the energy pool only falls in the course of
/// the consumption pass.
pub(crate) proof fn lemma_consumption_energy_falls(
    units: Seq<UnitView>,
    dt: int,
    pools: Pools,
    i: int,
    j: int,
)
    requires
        0 <= i <= j <= units.len(),
        dt >= 0,
        forall|k: int| 0 <= k < units.len() ==> (#[trigger] units[k]).e_cost_per_second >= 0,
    ensures
        consumption(units.take(j), dt, pools).energy <= consumption(
            units.take(i),
            dt,
            pools,
        ).energy,
    decreases j - i,
{
    if i < j {
        lemma_consumption_energy_falls(units, dt, pools, i, j - 1);
        assert(units.take(j).drop_last() =~= units.take(j - 1));
        assert(units.take(j).last() == units[j - 1]);
        lemma_scaled_nonnegative(dt, units[j - 1].e_cost_per_second);
    }
}

/// The build pass leaves both pools at 0 or above: a step is paid only out of
/// what the pools hold.
pub(crate) proof fn lemma_build_pass_nonnegative(site: Site, dt: int, n: nat)
    requires
        site.pools.energy >= 0,
        site.pools.metal >= 0,
    ensures
        build_pass(site, dt, n).pools.energy >= 0,
        build_pass(site, dt, n).pools.metal >= 0,
    decreases n,
{
    if n > 0 {
        lemma_build_pass_nonnegative(site, dt, (n - 1) as nat);
    }
}

/// With a base and units that store no less than 0, the storage is not below
/// 0.
pub(crate) proof fn lemma_capacity_nonnegative(units: Seq<UnitView>, base: int)
    requires
        base >= 0,
        forall|i: int| 0 <= i < units.len() ==> (#[trigger] units[i]).drains_nothing(),
    ensures
        metal_capacity(units, base) >= 0,
        energy_capacity(units, base) >= 0,
    decreases units.len(),
{
    if units.len() > 0 {
        lemma_capacity_nonnegative(units.drop_last(), base);
        assert(units.last().drains_nothing());
    }
}

/// Whether `x` is a value of `i64`.
pub(crate) open spec fn fits(x: int) -> bool {
    i64::MIN <= x <= i64::MAX
}

/// Whether what is banked in each unit, and what each unit costs, are values
/// of `i64`.
pub(crate) open spec fn units_fit(units: Seq<UnitView>) -> bool {
    forall|j: int|
        0 <= j < units.len() ==> {
            &&& fits((#[trigger] units[j]).metal)
            &&& fits(units[j].energy)
            &&& fits(units[j].m_build_cost)
            &&& fits(units[j].e_build_cost)
        }
}

/// The units of a state are made of values of `i64`.
pub(crate) proof fn lemma_state_fits(state: GameState)
    ensures
        units_fit(state@.units),
{
    assert forall|j: int| 0 <= j < state@.units.len() implies {
        &&& fits((#[trigger] state@.units[j]).metal)
        &&& fits(state@.units[j].energy)
        &&& fits(state@.units[j].m_build_cost)
        &&& fits(state@.units[j].e_build_cost)
    } by {
        assert(state@.units[j] == state.units@[j]@);
    }
}

/// Over no time nothing is produced.
pub(crate) proof fn lemma_production_zero(units: Seq<UnitView>, wind: int, energy: int)
    requires
        fits(energy),
    ensures
        production(units, wind, 0, energy) == energy,
    decreases units.len(),
{
    if units.len() > 0 {
        lemma_production_zero(units.drop_last(), wind, energy);
        let u = units.last();
        lemma_scaled_zero(u.e_per_second);
        lemma_scaled_zero(least(u.wind_e_per_second, wind));
    }
}

/// Over no time nothing is consumed and nothing is made.
pub(crate) proof fn lemma_consumption_zero(units: Seq<UnitView>, pools: Pools)
    requires
        fits(pools.energy),
        fits(pools.metal),
    ensures
        consumption(units, 0, pools) == pools,
    decreases units.len(),
{
    if units.len() > 0 {
        lemma_consumption_zero(units.drop_last(), pools);
        let u = units.last();
        lemma_scaled_zero(u.e_cost_per_second);
        lemma_scaled_zero(u.m_per_second);
    }
}

/// Over no time a builder takes a step of 0, which costs nothing.
pub(crate) proof fn lemma_step_zero(builder: UnitView, target: UnitView)
    requires
        target.buildtime != 0,
        remaining(target) >= 0,
    ensures
        build_step(builder, target, 0) == 0,
        share(0, target.m_build_cost, target.metal) == 0,
        share(0, target.e_build_cost, target.energy) == 0,
{
    lemma_ratio_of_zero(builder.buildpower, target.buildtime);
    lemma_scaled_up_zero(target.m_build_cost);
    lemma_scaled_up_zero(target.e_build_cost);
}

/// A target that holds all its metal has nothing left to be built.
pub(crate) proof fn lemma_nothing_remains(target: UnitView)
    requires
        target.m_build_cost != 0,
        target.metal == target.m_build_cost,
    ensures
        remaining(target) == 0,
{
    lemma_ratio_of_whole(target.m_build_cost);
}

/// Over no time a build step moves nothing: it leaves the pools as they are,
/// and each unit as it is or complete.
pub(crate) proof fn lemma_build_zero(site: Site, i: int)
    requires
        targets_valid(site.units),
        no_target_overbuilt(site.units),
        units_fit(site.units),
        fits(site.pools.energy),
        fits(site.pools.metal),
        0 <= i < site.units.len(),
    ensures
        build(site, i, 0).pools == site.pools,
        no_target_overbuilt(build(site, i, 0).units),
        units_fit(build(site, i, 0).units),
        targets_incomplete(site.units) ==> build(site, i, 0) == site,
{
    let builder = site.units[i];
    let after = build(site, i, 0);
    if builder.alive && builder.build_target is Some {
        let t = builder.build_target->0;
        let target = site.units[t];
        assert(target_valid(site.units, t));
        assert(remaining(target) >= 0);
        lemma_step_zero(builder, target);
        assert(credited(target, 0, 0) == target);
        assert(site.units.update(t, target) =~= site.units);
        let paid = if 0 < site.pools.metal && 0 < site.pools.energy {
            Site {
                units: site.units.update(t, credited(target, 0, 0)),
                pools: Pools {
                    energy: difference(site.pools.energy, 0),
                    metal: difference(site.pools.metal, 0),
                },
            }
        } else {
            site
        };
        assert(paid == site);
        if remaining(target) == 0 {
            let completed = site.units.update(t, target.constructed());
            assert(after.units == completed.update(i, released(completed[i])));
            lemma_nothing_remains(target.constructed());
            assert forall|j: int|
                0 <= j < after.units.len() && (#[trigger] after.units[j]).build_target is Some
                implies remaining(after.units[after.units[j].build_target->0]) >= 0 by {
                let tj = after.units[j].build_target->0;
                assert(site.units[j].build_target == Some(tj));
                assert(target_valid(site.units, tj));
                assert(remaining(site.units[tj]) >= 0);
                if tj == t {
                    assert(remaining(after.units[tj]) == remaining(target.constructed()));
                } else {
                    assert(remaining(after.units[tj]) == remaining(site.units[tj]));
                }
            }
        } else {
            assert(after == site);
        }
    }
}

/// Over no time the build pass moves nothing.
pub(crate) proof fn lemma_build_pass_zero(site: Site, n: nat)
    requires
        targets_valid(site.units),
        no_target_overbuilt(site.units),
        units_fit(site.units),
        fits(site.pools.energy),
        fits(site.pools.metal),
        n <= site.units.len(),
    ensures
        build_pass(site, 0, n).pools == site.pools,
        build_pass(site, 0, n).units.len() == site.units.len(),
        targets_valid(build_pass(site, 0, n).units),
        no_target_overbuilt(build_pass(site, 0, n).units),
        units_fit(build_pass(site, 0, n).units),
        targets_incomplete(site.units) ==> build_pass(site, 0, n) == site,
    decreases n,
{
    if n > 0 {
        let before = build_pass(site, 0, (n - 1) as nat);
        lemma_build_pass_zero(site, (n - 1) as nat);
        lemma_build_keeps_targets(before, n - 1, 0);
        lemma_build_zero(before, n - 1);
    }
}

/// The fraction of its cost `c` that a target holds with `m` is between none
/// and the whole.
pub(crate) proof fn lemma_fraction_built(m: int, c: int)
    requires
        0 <= m <= c,
        0 < c,
    ensures
        0 <= (m * 1_000_000) / c <= 1_000_000,
{
    assert(0 <= (m * 1_000_000) / c <= 1_000_000) by (nonlinear_arith)
        requires
            0 <= m <= c,
            0 < c,
    ;
}

/// A builder of a power that is not below 0 builds no less than nothing in a
/// time that is not below 0.
pub(crate) proof fn lemma_ratio_nonnegative(a: int, b: int, c: int)
    requires
        a >= 0,
        b >= 0,
        c > 0,
    ensures
        ratio(a, b, c) >= 0,
{
    assert((a * b) / c >= 0) by (nonlinear_arith)
        requires
            a >= 0,
            b >= 0,
            c > 0,
    ;
}

/// What holds of the units before and after every build step, where
/// construction can only go forward.
pub(crate) open spec fn in_order(units: Seq<UnitView>) -> bool {
    &&& targets_valid(units)
    &&& builds_forward(units)
    &&& all_within_cost(units)
    &&& units_fit(units)
}

/// Rounded up, the product of two numbers that are not negative is not
/// negative.
pub(crate) proof fn lemma_scaled_up_nonnegative(a: int, b: int)
    requires
        a >= 0,
        b >= 0,
    ensures
        scaled_up(a, b) >= 0,
{
    assert(a * b >= 0) by (nonlinear_arith)
        requires
            a >= 0,
            b >= 0,
    ;
    assert(-((-(a * b)) / 1_000_000) >= 0);
}

/// Where construction can only go forward, a build step keeps what is banked
/// in each unit in agreement with its state, and takes nothing out of a unit.
pub(crate) proof fn lemma_build_within_cost(site: Site, i: int, dt: int)
    requires
        in_order(site.units),
        0 <= i < site.units.len(),
        dt >= 0,
    ensures
        in_order(build(site, i, dt).units),
        nothing_taken(site.units, build(site, i, dt).units),
{
    let builder = site.units[i];
    let after = build(site, i, dt).units;
    lemma_build_keeps_targets(site, i, dt);
    lemma_build_keeps_units(site, i, dt);
    if builder.alive && builder.build_target is Some {
        let t = builder.build_target->0;
        let target = site.units[t];
        assert(target_valid(site.units, t));
        assert(target.within_cost());
        let step = build_step(builder, target, dt);
        lemma_ratio_nonnegative(dt, builder.buildpower, target.buildtime);
        lemma_fraction_built(target.metal, target.m_build_cost);
        assert(0 <= step <= remaining(target));
        lemma_scaled_up_nonnegative(step, target.m_build_cost);
        lemma_scaled_up_nonnegative(step, target.e_build_cost);
        let metal = share(step, target.m_build_cost, target.metal);
        let energy = share(step, target.e_build_cost, target.energy);
        assert(0 <= metal <= target.m_build_cost - target.metal);
        assert(0 <= energy <= target.e_build_cost - target.energy);
    }
    assert forall|j: int| 0 <= j < after.len() implies {
        &&& (#[trigger] after[j]).within_cost()
        &&& fits(after[j].metal)
        &&& fits(after[j].energy)
        &&& fits(after[j].m_build_cost)
        &&& fits(after[j].e_build_cost)
        &&& after[j].metal >= site.units[j].metal
        &&& after[j].energy >= site.units[j].energy
        &&& after[j].buildpower >= 0
    } by {
        assert(site.units[j].within_cost());
        assert(site.units[j].same_unit(after[j]));
    }
    assert forall|j: int|
        0 <= j < after.len() && (#[trigger] after[j]).build_target is Some implies {
        let target = after[after[j].build_target->0];
        &&& target.buildtime > 0
        &&& target.m_build_cost > 0
        &&& target.e_build_cost >= 0
    } by {
        let tj = after[j].build_target->0;
        assert(site.units[j].build_target == Some(tj));
        assert(target_valid(site.units, tj));
        assert(site.units[tj].same_unit(after[tj]));
    }
}

/// Where construction can only go forward, the build pass keeps what is
/// banked in each unit in agreement with its state, and takes nothing out of
/// a unit.
pub(crate) proof fn lemma_build_pass_within_cost(site: Site, dt: int, n: nat)
    requires
        in_order(site.units),
        n <= site.units.len(),
        dt >= 0,
    ensures
        build_pass(site, dt, n).units.len() == site.units.len(),
        in_order(build_pass(site, dt, n).units),
        nothing_taken(site.units, build_pass(site, dt, n).units),
    decreases n,
{
    if n > 0 {
        let before = build_pass(site, dt, (n - 1) as nat);
        lemma_build_pass_within_cost(site, dt, (n - 1) as nat);
        lemma_build_keeps_targets(before, n - 1, dt);
        lemma_build_within_cost(before, n - 1, dt);
        let after = build(before, n - 1, dt).units;
        assert forall|j: int| 0 <= j < site.units.len() implies {
            &&& site.units[j].metal <= (#[trigger] after[j]).metal
            &&& site.units[j].energy <= after[j].energy
        } by {
            assert(site.units[j].metal <= before.units[j].metal);
            assert(before.units[j].metal <= after[j].metal);
        }
    }
}

} // verus!
