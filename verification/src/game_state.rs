//! The state of a match and the operations that change it.

use vstd::prelude::*;
use vstd::hash_map::StringHashMap;
use vstd::string::StringExecFns;
use crate::economy::{
    alive_units_kept, all_within_cost, build, build_pass, builds_forward, consumption,
    energy_capacity, metal_capacity, nothing_taken, production, same_units, target_valid,
    targets_valid, Pools, Site,
};
use crate::fixed::{
    approx_eq, larger, least, mul_div, mul_fixed, mul_fixed_up, sat_add, sat_sub, smaller,
    SCALE,
};
use crate::laws::{law_construction_stays_within_cost, law_tick_keeps_units};
use crate::lemmas::lemma_build_keeps_targets;
use crate::unit::{Unit, UnitView};
use crate::world_params::WorldParams;

verus! {

/// Why an operation on the state was refused.
#[derive(Debug, PartialEq)]
pub enum GameError {
    /// No template of this name is registered.
    UnknownUnit(String),
    /// The builder may not construct the template of this name.
    CannotBuild(String),
}

impl GameError {
    /// The error in words.
    pub fn message(&self) -> (r: String)
        ensures
            r@ == match *self {
                GameError::UnknownUnit(name) => "'"@ + name@ + "' is not a known unit."@,
                GameError::CannotBuild(name) => "Constructor cannot build unit '"@ + name@
                    + "'."@,
            },
    {
        match self {
            GameError::UnknownUnit(name) => {
                String::from_str("'").concat(name.as_str()).concat("' is not a known unit.")
            },
            GameError::CannotBuild(name) => {
                String::from_str("Constructor cannot build unit '").concat(name.as_str()).concat(
                    "'.",
                )
            },
        }
    }
}

/// The state of a match.
///
/// The order of `units` is part of the state: where a pool cannot serve every
/// unit, the units that come first are served. A unit's `build_target` is an
/// index into `units`.
pub struct GameState {
    pub units: Vec<Unit>,
    /// The templates, by name.
    pub unit_catalog: StringHashMap<Unit>,
    pub world_params: WorldParams,
    pub energy: i64,
    pub metal: i64,
    pub wind_strength: i64,
    pub time: i64,
}

/// What a state is, mathematically.
pub struct GameStateView {
    pub units: Seq<UnitView>,
    pub unit_catalog: Map<Seq<char>, UnitView>,
    pub world_params: WorldParams,
    pub energy: int,
    pub metal: int,
    pub wind_strength: int,
    pub time: int,
}

impl GameStateView {
    /// The most metal that the pool may hold.
    pub open spec fn metal_storage(self) -> int {
        metal_capacity(self.units, self.world_params.base_metal_storage as int)
    }

    /// The most energy that the pool may hold.
    pub open spec fn energy_storage(self) -> int {
        energy_capacity(self.units, self.world_params.base_energy_storage as int)
    }

    /// Whether every build target can be built on.
    pub open spec fn targets_valid(self) -> bool {
        targets_valid(self.units)
    }

    /// Whether the state can be advanced by `dt`: every build target can be
    /// built on, and the time after the tick can be represented.
    pub open spec fn can_tick(self, dt: int) -> bool {
        &&& self.targets_valid()
        &&& i64::MIN <= self.time + dt <= i64::MAX
    }

    /// Whether nothing in the state is below 0 that the pools depend on: the
    /// pools, the base storage, the wind, and what each unit makes and stores.
    pub open spec fn nonnegative(self) -> bool {
        &&& self.energy >= 0
        &&& self.metal >= 0
        &&& self.wind_strength >= 0
        &&& self.world_params.base_energy_storage >= 0
        &&& self.world_params.base_metal_storage >= 0
        &&& forall|i: int| 0 <= i < self.units.len() ==> (#[trigger] self.units[i]).drains_nothing()
    }

    /// The state with one more unit at the end of the list.
    pub open spec fn with_unit(self, unit: UnitView) -> GameStateView {
        GameStateView { units: self.units.push(unit), ..self }
    }

    /// The state after the unit at `builder` has been given the order to
    /// build a copy of `template`: the copy is the last unit of the list, and
    /// the builder's target.
    pub open spec fn with_order(self, builder: int, template: UnitView) -> GameStateView {
        GameStateView {
            units: self.units.push(template).update(
                builder,
                UnitView { build_target: Some(self.units.len() as int), ..self.units[builder] },
            ),
            ..self
        }
    }

    /// The state after a tick of length `dt`: production, consumption and
    /// building, each over all units in list order, then the clamp of the
    /// pools to the storage that the units give after the build pass, and the
    /// advance of the time by `dt`.
    pub open spec fn tick(self, dt: int) -> GameStateView {
        let produced = production(self.units, self.wind_strength, dt, self.energy);
        let consumed = consumption(self.units, dt, Pools { energy: produced, metal: self.metal });
        let built = build_pass(Site { units: self.units, pools: consumed }, dt, self.units.len());
        let after = GameStateView { units: built.units, ..self };
        GameStateView {
            energy: least(built.pools.energy, after.energy_storage()),
            metal: least(built.pools.metal, after.metal_storage()),
            time: self.time + dt,
            ..after
        }
    }
}

impl View for GameState {
    type V = GameStateView;

    open spec fn view(&self) -> GameStateView {
        GameStateView {
            units: self.units@.map_values(|u: Unit| u@),
            unit_catalog: self.unit_catalog@.map_values(|u: Unit| u@),
            world_params: self.world_params,
            energy: self.energy as int,
            metal: self.metal as int,
            wind_strength: self.wind_strength as int,
            time: self.time as int,
        }
    }
}

impl GameState {
    /// The start of a match: no units, no templates, the starting resources in
    /// the pools, a wind of strength 25 and the time 0.
    pub fn new(world_params: WorldParams) -> (r: GameState)
        ensures
            r@ == (GameStateView {
                units: Seq::empty(),
                unit_catalog: Map::empty(),
                world_params,
                energy: world_params.start_energy as int,
                metal: world_params.start_metal as int,
                wind_strength: 25_000_000,
                time: 0,
            }),
    {
        let r = GameState {
            units: Vec::new(),
            unit_catalog: StringHashMap::new(),
            world_params,
            energy: world_params.start_energy,
            metal: world_params.start_metal,
            wind_strength: 25_000_000,
            time: 0,
        };
        assert(r@.units =~= Seq::empty());
        assert(r@.unit_catalog =~= Map::empty());
        r
    }

    /// Makes `unit` the template of the name `name`, in place of any earlier
    /// template of that name.
    pub fn register_unit(&mut self, name: &str, unit: Unit)
        ensures
            final(self)@ == (GameStateView {
                unit_catalog: old(self)@.unit_catalog.insert(name@, unit@),
                ..old(self)@
            }),
    {
        self.unit_catalog.insert(name.to_owned(), unit);
        assert(self@.unit_catalog =~= old(self)@.unit_catalog.insert(name@, unit@));
    }

    /// Adds a copy of the template `unit_name` at the end of the list and
    /// returns its index.
    pub fn add_unit(&mut self, unit_name: &str) -> (r: Result<usize, GameError>)
        ensures
            match r {
                Ok(i) => {
                    &&& old(self)@.unit_catalog.contains_key(unit_name@)
                    &&& i == old(self)@.units.len()
                    &&& final(self)@ == old(self)@.with_unit(
                        old(self)@.unit_catalog[unit_name@],
                    )
                },
                Err(e) => {
                    &&& !old(self)@.unit_catalog.contains_key(unit_name@)
                    &&& e matches GameError::UnknownUnit(name)
                    &&& name@ == unit_name@
                    &&& *final(self) == *old(self)
                },
            },
    {
        match self.unit_catalog.get(unit_name) {
            Some(template) => {
                let unit: Unit = template.clone();
                self.units.push(unit);
                assert(self@.units =~= old(self)@.units.push(
                    old(self)@.unit_catalog[unit_name@],
                ));
                Ok(self.units.len() - 1)
            },
            None => Err(GameError::UnknownUnit(unit_name.to_owned())),
        }
    }

    /// Adds a copy of the template `unit_name`, completes it at once, and
    /// returns its index.
    pub fn add_completed_unit(&mut self, unit_name: &str) -> (r: Result<usize, GameError>)
        ensures
            match r {
                Ok(i) => {
                    &&& old(self)@.unit_catalog.contains_key(unit_name@)
                    &&& i == old(self)@.units.len()
                    &&& final(self)@ == old(self)@.with_unit(
                        old(self)@.unit_catalog[unit_name@].constructed(),
                    )
                },
                Err(e) => {
                    &&& !old(self)@.unit_catalog.contains_key(unit_name@)
                    &&& e matches GameError::UnknownUnit(name)
                    &&& name@ == unit_name@
                    &&& *final(self) == *old(self)
                },
            },
    {
        match self.add_unit(unit_name) {
            Ok(unit_idx) => {
                let ghost added = self@;
                assert(self.units@.len() == added.units.len());
                self.units[unit_idx].construct();
                assert(self@.units =~= added.units.update(
                    unit_idx as int,
                    added.units[unit_idx as int].constructed(),
                ));
                assert(self@.units =~= old(self)@.units.push(
                    old(self)@.unit_catalog[unit_name@].constructed(),
                ));
                Ok(unit_idx)
            },
            Err(e) => Err(e),
        }
    }

    /// Orders the unit at `builder` to build a new unit from the template
    /// `buildee`, and returns the new unit's index.
    ///
    /// The order is refused, and nothing changes, if `buildee` is not among
    /// the builder's options, or else if no template of that name is
    /// registered.
    pub fn build_unit(&mut self, builder: usize, buildee: &str) -> (r: Result<usize, GameError>)
        requires
            builder < old(self)@.units.len(),
        ensures
            match r {
                Ok(i) => {
                    &&& old(self)@.units[builder as int].build_options.contains(buildee@)
                    &&& old(self)@.unit_catalog.contains_key(buildee@)
                    &&& i == old(self)@.units.len()
                    &&& final(self)@ == old(self)@.with_order(
                        builder as int,
                        old(self)@.unit_catalog[buildee@],
                    )
                },
                Err(GameError::CannotBuild(name)) => {
                    &&& !old(self)@.units[builder as int].build_options.contains(buildee@)
                    &&& name@ == buildee@
                    &&& *final(self) == *old(self)
                },
                Err(GameError::UnknownUnit(name)) => {
                    &&& old(self)@.units[builder as int].build_options.contains(buildee@)
                    &&& !old(self)@.unit_catalog.contains_key(buildee@)
                    &&& name@ == buildee@
                    &&& *final(self) == *old(self)
                },
            },
    {
        assert(self@.units[builder as int] == self.units@[builder as int]@);
        if !self.units[builder].build_options.contains(buildee) {
            return Err(GameError::CannotBuild(buildee.to_owned()));
        }
        match self.add_unit(buildee) {
            Ok(buildee_idx) => {
                let ghost added = self@;
                assert(self.units@.len() == added.units.len());
                self.units[builder].build_target = Some(buildee_idx);
                assert(self@.units =~= added.units.update(
                    builder as int,
                    UnitView {
                        build_target: Some(buildee_idx as int),
                        ..added.units[builder as int]
                    },
                ));
                assert(added.units[builder as int] == old(self)@.units[builder as int]);
                assert(self@.units =~= old(self)@.with_order(
                    builder as int,
                    old(self)@.unit_catalog[buildee@],
                ).units);
                Ok(buildee_idx)
            },
            Err(e) => Err(e),
        }
    }

    /// Whether `simulate` may be called with `dt`: whether every build target
    /// can be built on, and the time after the tick can be represented.
    pub fn can_simulate(&self, dt: i64) -> (r: bool)
        ensures
            r == self@.can_tick(dt as int),
    {
        if self.time.checked_add(dt).is_none() {
            return false;
        }
        let n: usize = self.units.len();
        let mut i: usize = 0;
        while i < n
            invariant
                i <= n,
                n == self.units@.len(),
                forall|j: int|
                    0 <= j < i && (#[trigger] self@.units[j]).build_target is Some
                        ==> target_valid(self@.units, self@.units[j].build_target->0),
            decreases n - i,
        {
            assert(self@.units[i as int] == self.units@[i as int]@);
            if let Some(t) = self.units[i].build_target {
                if t >= n {
                    return false;
                }
                assert(self@.units[t as int] == self.units@[t as int]@);
                if self.units[t].buildtime == 0 || self.units[t].m_build_cost == 0 {
                    return false;
                }
            }
            i += 1;
        }
        true
    }

    /// Advances the match by `dt`.
    ///
    /// Every unit that is alive produces; then every unit that is alive asks
    /// for its upkeep, and makes metal if it is served; then every unit that
    /// is alive and has a target builds; each in list order. At the end the
    /// pools are clamped to the storage and the time advances by `dt`.
    ///
    /// The units stay the units they are, in their places, and a unit that is
    /// alive stays alive. Where construction can only go forward and the time
    /// does not run backward, what is banked in a unit under construction
    /// never falls and never passes its cost, and a unit that is alive keeps
    /// exactly its cost.
    pub fn simulate(&mut self, dt: i64)
        requires
            old(self)@.can_tick(dt as int),
        ensures
            final(self)@ == old(self)@.tick(dt as int),
            final(self)@.time == old(self)@.time + dt,
            final(self)@.energy <= final(self)@.energy_storage(),
            final(self)@.metal <= final(self)@.metal_storage(),
            final(self)@.targets_valid(),
            same_units(old(self)@.units, final(self)@.units),
            dt >= 0 && builds_forward(old(self)@.units) && all_within_cost(old(self)@.units) ==> {
                &&& builds_forward(final(self)@.units)
                &&& all_within_cost(final(self)@.units)
                &&& nothing_taken(old(self)@.units, final(self)@.units)
                &&& alive_units_kept(old(self)@.units, final(self)@.units)
            },
    {
        proof {
            law_tick_keeps_units(old(self)@, dt as int);
            if dt >= 0 && builds_forward(old(self)@.units) && all_within_cost(old(self)@.units) {
                law_construction_stays_within_cost(*old(self), dt);
            }
        }
        let produced: i64 = self.produced(dt);
        let consumed: (i64, i64) = self.consumed(dt, produced);
        let built: (i64, i64) = self.built(dt, consumed);
        let max_metal: i64 = self.metal_storage();
        let max_energy: i64 = self.energy_storage();
        self.metal = smaller(built.1, max_metal);
        self.energy = smaller(built.0, max_energy);
        self.time = self.time + dt;
    }

    /// The energy pool after the production pass.
    fn produced(&self, dt: i64) -> (energy: i64)
        ensures
            energy == production(
                self@.units,
                self.wind_strength as int,
                dt as int,
                self.energy as int,
            ),
    {
        let mut energy: i64 = self.energy;
        let mut i: usize = 0;
        while i < self.units.len()
            invariant
                i <= self.units@.len(),
                energy == production(
                    self@.units.take(i as int),
                    self.wind_strength as int,
                    dt as int,
                    self.energy as int,
                ),
            decreases self.units@.len() - i,
        {
            assert(self@.units.take(i + 1).drop_last() =~= self@.units.take(i as int));
            if self.units[i].alive {
                energy = sat_add(energy, mul_fixed(dt, self.units[i].e_per_second));
                energy = sat_add(
                    energy,
                    mul_fixed(dt, smaller(self.units[i].wind_e_per_second, self.wind_strength)),
                );
            }
            i += 1;
        }
        assert(self@.units.take(i as int) =~= self@.units);
        energy
    }

    /// The pools, energy first, after the consumption pass that starts with
    /// `energy` in the energy pool.
    fn consumed(&self, dt: i64, energy: i64) -> (pools: (i64, i64))
        ensures
            (Pools { energy: pools.0 as int, metal: pools.1 as int }) == consumption(
                self@.units,
                dt as int,
                Pools { energy: energy as int, metal: self.metal as int },
            ),
    {
        let ghost start = Pools { energy: energy as int, metal: self.metal as int };
        let mut energy: i64 = energy;
        let mut metal: i64 = self.metal;
        let mut i: usize = 0;
        while i < self.units.len()
            invariant
                i <= self.units@.len(),
                (Pools { energy: energy as int, metal: metal as int }) == consumption(
                    self@.units.take(i as int),
                    dt as int,
                    start,
                ),
            decreases self.units@.len() - i,
        {
            assert(self@.units.take(i + 1).drop_last() =~= self@.units.take(i as int));
            if self.units[i].alive {
                let e_consumed: i64 = mul_fixed(dt, self.units[i].e_cost_per_second);
                if energy > e_consumed {
                    energy = sat_sub(energy, e_consumed);
                    metal = sat_add(metal, mul_fixed(dt, self.units[i].m_per_second));
                }
            }
            i += 1;
        }
        assert(self@.units.take(i as int) =~= self@.units);
        (energy, metal)
    }

    /// Runs the build pass on the units, starting with `pools`, energy first,
    /// and returns the pools after it.
    fn built(&mut self, dt: i64, pools: (i64, i64)) -> (r: (i64, i64))
        requires
            old(self)@.targets_valid(),
        ensures
            (Site {
                units: final(self)@.units,
                pools: Pools { energy: r.0 as int, metal: r.1 as int },
            }) == build_pass(
                Site {
                    units: old(self)@.units,
                    pools: Pools { energy: pools.0 as int, metal: pools.1 as int },
                },
                dt as int,
                old(self)@.units.len(),
            ),
            final(self)@ == (GameStateView { units: final(self)@.units, ..old(self)@ }),
            final(self)@.targets_valid(),
    {
        let ghost start = Site {
            units: self@.units,
            pools: Pools { energy: pools.0 as int, metal: pools.1 as int },
        };
        let n: usize = self.units.len();
        let mut energy: i64 = pools.0;
        let mut metal: i64 = pools.1;
        let mut i: usize = 0;
        while i < n
            invariant
                i <= n,
                n == self.units@.len(),
                n == start.units.len(),
                targets_valid(self@.units),
                (Site {
                    units: self@.units,
                    pools: Pools { energy: energy as int, metal: metal as int },
                }) == build_pass(start, dt as int, i as nat),
                self@ == (GameStateView { units: self@.units, ..old(self)@ }),
            decreases n - i,
        {
            let ghost before = Site {
                units: self@.units,
                pools: Pools { energy: energy as int, metal: metal as int },
            };
            proof {
                lemma_build_keeps_targets(before, i as int, dt as int);
            }
            assert(self@.units[i as int] == self.units@[i as int]@);
            if self.units[i].alive {
                if let Some(target_idx) = self.units[i].build_target {
                    assert(self@.units[target_idx as int] == self.units@[target_idx as int]@);
                    let left: i64 = sat_sub(
                        SCALE,
                        mul_div(
                            self.units[target_idx].metal,
                            SCALE,
                            self.units[target_idx].m_build_cost,
                        ),
                    );
                    let build_step: i64 = smaller(
                        mul_div(dt, self.units[i].buildpower, self.units[target_idx].buildtime),
                        left,
                    );
                    let build_m_cost: i64 = smaller(
                        mul_fixed_up(build_step, self.units[target_idx].m_build_cost),
                        larger(
                            sat_sub(
                                self.units[target_idx].m_build_cost,
                                self.units[target_idx].metal,
                            ),
                            0,
                        ),
                    );
                    let build_e_cost: i64 = smaller(
                        mul_fixed_up(build_step, self.units[target_idx].e_build_cost),
                        larger(
                            sat_sub(
                                self.units[target_idx].e_build_cost,
                                self.units[target_idx].energy,
                            ),
                            0,
                        ),
                    );
                    if build_m_cost < metal && build_e_cost < energy {
                        metal = sat_sub(metal, build_m_cost);
                        energy = sat_sub(energy, build_e_cost);
                        let banked_metal: i64 = self.units[target_idx].metal;
                        let banked_energy: i64 = self.units[target_idx].energy;
                        self.units[target_idx].metal = sat_add(banked_metal, build_m_cost);
                        self.units[target_idx].energy = sat_add(banked_energy, build_e_cost);
                    }
                    if approx_eq(build_step, left) {
                        self.units[target_idx].construct();
                        self.units[i].build_target = None;
                    }
                }
            }
            assert(self@.units =~= build(before, i as int, dt as int).units);
            assert(self@.unit_catalog =~= old(self)@.unit_catalog);
            i += 1;
        }
        (energy, metal)
    }

    /// The most metal that the pool may hold: the base storage and the storage
    /// of each unit that is alive.
    pub fn metal_storage(&self) -> (r: i64)
        ensures
            r == self@.metal_storage(),
    {
        let mut storage: i64 = self.world_params.base_metal_storage;
        let mut i: usize = 0;
        while i < self.units.len()
            invariant
                i <= self.units@.len(),
                storage == metal_capacity(
                    self@.units.take(i as int),
                    self.world_params.base_metal_storage as int,
                ),
            decreases self.units@.len() - i,
        {
            assert(self@.units.take(i + 1).drop_last() =~= self@.units.take(i as int));
            if self.units[i].alive {
                storage = sat_add(storage, self.units[i].m_storage);
            }
            i += 1;
        }
        assert(self@.units.take(i as int) =~= self@.units);
        storage
    }

    /// The most energy that the pool may hold: the base storage and the
    /// storage of each unit that is alive.
    pub fn energy_storage(&self) -> (r: i64)
        ensures
            r == self@.energy_storage(),
    {
        let mut storage: i64 = self.world_params.base_energy_storage;
        let mut i: usize = 0;
        while i < self.units.len()
            invariant
                i <= self.units@.len(),
                storage == energy_capacity(
                    self@.units.take(i as int),
                    self.world_params.base_energy_storage as int,
                ),
            decreases self.units@.len() - i,
        {
            assert(self@.units.take(i + 1).drop_last() =~= self@.units.take(i as int));
            if self.units[i].alive {
                storage = sat_add(storage, self.units[i].e_storage);
            }
            i += 1;
        }
        assert(self@.units.take(i as int) =~= self@.units);
        storage
    }
}

} // verus!
