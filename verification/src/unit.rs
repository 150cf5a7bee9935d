//! Units: the entities of the economy, as templates and as live instances.

use vstd::prelude::*;

verus! {

/// The names of the templates that a unit may start to construct.
///
/// A set of names: adding a name that is there already changes nothing, and
/// two sets are equal if they hold the same names.
#[derive(Debug)]
pub struct BuildOptions {
    names: Vec<String>,
}

impl View for BuildOptions {
    type V = Set<Seq<char>>;

    closed spec fn view(&self) -> Set<Seq<char>> {
        Set::new(|name: Seq<char>| Self::holds(self.names@, name))
    }
}

impl BuildOptions {
    spec fn holds(names: Seq<String>, name: Seq<char>) -> bool {
        exists|i: int| 0 <= i < names.len() && (#[trigger] names[i])@ == name
    }

    /// No names.
    pub fn new() -> (r: Self)
        ensures
            r@ == Set::<Seq<char>>::empty(),
    {
        let r = BuildOptions { names: Vec::new() };
        assert(r@ =~= Set::<Seq<char>>::empty());
        r
    }

    /// Whether `name` is one of the names.
    pub fn contains(&self, name: &str) -> (r: bool)
        ensures
            r == self@.contains(name@),
    {
        let wanted: String = name.to_owned();
        let mut i: usize = 0;
        while i < self.names.len()
            invariant
                i <= self.names@.len(),
                wanted@ == name@,
                forall|j: int| 0 <= j < i ==> (#[trigger] self.names@[j])@ != name@,
            decreases self.names@.len() - i,
        {
            if self.names[i] == wanted {
                return true;
            }
            i += 1;
        }
        false
    }

    /// Adds `name`. Returns whether it was new.
    pub fn insert(&mut self, name: String) -> (fresh: bool)
        ensures
            final(self)@ == old(self)@.insert(name@),
            fresh == !old(self)@.contains(name@),
    {
        if self.contains(name.as_str()) {
            assert(self@ =~= self@.insert(name@));
            false
        } else {
            let ghost before = self.names@;
            self.names.push(name);
            assert(self@ =~= old(self)@.insert(name@)) by {
                assert forall|s: Seq<char>| Self::holds(self.names@, s) <==> (s == name@
                    || Self::holds(before, s)) by {
                    if Self::holds(before, s) {
                        let i = choose|i: int|
                            0 <= i < before.len() && (#[trigger] before[i])@ == s;
                        assert(self.names@[i]@ == s);
                    }
                    if s == name@ {
                        assert(self.names@[before.len() as int]@ == s);
                    }
                }
            }
            true
        }
    }

    /// Whether every name of this set is a name of `other`.
    fn within(&self, other: &BuildOptions) -> (r: bool)
        ensures
            r == self@.subset_of(other@),
    {
        let mut i: usize = 0;
        while i < self.names.len()
            invariant
                i <= self.names@.len(),
                forall|j: int| 0 <= j < i ==> other@.contains((#[trigger] self.names@[j])@),
            decreases self.names@.len() - i,
        {
            if !other.contains(self.names[i].as_str()) {
                assert(Self::holds(self.names@, self.names@[i as int]@));
                return false;
            }
            i += 1;
        }
        assert forall|name: Seq<char>| self@.contains(name) implies other@.contains(name) by {
            let j = choose|j: int|
                0 <= j < self.names@.len() && (#[trigger] self.names@[j])@ == name;
            assert(other@.contains(self.names@[j]@));
        }
        true
    }
}

impl PartialEq for BuildOptions {
    fn eq(&self, other: &Self) -> (r: bool) {
        let r = self.within(other) && other.within(self);
        assert(r == (self@ =~= other@));
        r
    }
}

impl vstd::std_specs::cmp::PartialEqSpecImpl for BuildOptions {
    open spec fn obeys_eq_spec() -> bool {
        true
    }

    open spec fn eq_spec(&self, other: &Self) -> bool {
        self@ == other@
    }
}

impl Clone for BuildOptions {
    fn clone(&self) -> (r: Self)
        ensures
            r@ == self@,
    {
        let mut names: Vec<String> = Vec::new();
        let mut i: usize = 0;
        while i < self.names.len()
            invariant
                i <= self.names@.len(),
                names@ == self.names@.take(i as int),
            decreases self.names@.len() - i,
        {
            names.push(self.names[i].clone());
            assert(names@ =~= self.names@.take(i + 1));
            i += 1;
        }
        assert(names@ =~= self.names@);
        BuildOptions { names }
    }
}

/// A unit: a template in the catalog, or a live instance in the list of units.
///
/// A unit that is not alive is under construction: `metal` and `energy` are
/// what has been banked in it so far. `construct` completes it.
#[derive(Debug, PartialEq)]
pub struct Unit {
    pub name: String,
    pub alive: bool,
    /// Metal banked in this unit while it is under construction.
    pub metal: i64,
    /// Energy banked in this unit while it is under construction.
    pub energy: i64,
    /// The rate at which this unit builds its target.
    pub buildpower: i64,
    /// The unit under construction by this one: its index in the list of units.
    pub build_target: Option<usize>,
    /// The templates that this unit may start to construct.
    pub build_options: BuildOptions,
    pub buildtime: i64,
    pub m_build_cost: i64,
    pub e_build_cost: i64,
    pub e_cost_per_second: i64,
    pub e_per_second: i64,
    pub wind_e_per_second: i64,
    pub e_storage: i64,
    pub m_per_second: i64,
    pub m_storage: i64,
}

/// What a unit is, mathematically.
pub struct UnitView {
    pub name: Seq<char>,
    pub alive: bool,
    pub metal: int,
    pub energy: int,
    pub buildpower: int,
    pub build_target: Option<int>,
    pub build_options: Set<Seq<char>>,
    pub buildtime: int,
    pub m_build_cost: int,
    pub e_build_cost: int,
    pub e_cost_per_second: int,
    pub e_per_second: int,
    pub wind_e_per_second: int,
    pub e_storage: int,
    pub m_per_second: int,
    pub m_storage: int,
}

impl UnitView {
    /// The unit once its construction is complete: it holds its full cost and
    /// is alive.
    pub open spec fn constructed(self) -> UnitView {
        UnitView { alive: true, metal: self.m_build_cost, energy: self.e_build_cost, ..self }
    }

    /// Whether the unit takes nothing out of a pool or the storage by being
    /// alive: it makes no less than 0 of energy, from the wind too, and of
    /// metal, and it stores no less than 0.
    pub open spec fn drains_nothing(self) -> bool {
        &&& self.e_per_second >= 0
        &&& self.wind_e_per_second >= 0
        &&& self.m_per_second >= 0
        &&& self.e_storage >= 0
        &&& self.m_storage >= 0
    }

    /// Whether what is banked in the unit agrees with its state: a unit that
    /// is alive holds exactly its cost, and a unit under construction holds
    /// of metal and of energy from 0 up to its cost.
    pub open spec fn within_cost(self) -> bool {
        if self.alive {
            self.metal == self.m_build_cost && self.energy == self.e_build_cost
        } else {
            0 <= self.metal <= self.m_build_cost && 0 <= self.energy <= self.e_build_cost
        }
    }

    /// Whether `other` is this unit at another time: all is the same but what
    /// construction changes (whether it is alive, what is banked in it, and
    /// its target).
    pub open spec fn same_unit(self, other: UnitView) -> bool {
        other == (UnitView {
            alive: other.alive,
            metal: other.metal,
            energy: other.energy,
            build_target: other.build_target,
            ..self
        })
    }

    /// A template before anything was set on it: not alive, nothing banked, no
    /// target, no options, all rates and storage 0.
    pub open spec fn unconstructed(m_cost: int, e_cost: int, buildtime: int) -> UnitView {
        UnitView {
            name: "Unnamed"@,
            alive: false,
            metal: 0,
            energy: 0,
            buildpower: 0,
            build_target: None,
            build_options: Set::empty(),
            buildtime,
            m_build_cost: m_cost,
            e_build_cost: e_cost,
            e_cost_per_second: 0,
            e_per_second: 0,
            wind_e_per_second: 0,
            e_storage: 0,
            m_per_second: 0,
            m_storage: 0,
        }
    }
}

impl View for Unit {
    type V = UnitView;

    open spec fn view(&self) -> UnitView {
        UnitView {
            name: self.name@,
            alive: self.alive,
            metal: self.metal as int,
            energy: self.energy as int,
            buildpower: self.buildpower as int,
            build_target: match self.build_target {
                Some(t) => Some(t as int),
                None => None,
            },
            build_options: self.build_options@,
            buildtime: self.buildtime as int,
            m_build_cost: self.m_build_cost as int,
            e_build_cost: self.e_build_cost as int,
            e_cost_per_second: self.e_cost_per_second as int,
            e_per_second: self.e_per_second as int,
            wind_e_per_second: self.wind_e_per_second as int,
            e_storage: self.e_storage as int,
            m_per_second: self.m_per_second as int,
            m_storage: self.m_storage as int,
        }
    }
}

impl Unit {
    /// A new template that costs `m_cost` metal and `e_cost` energy and takes
    /// `buildtime` to build.
    pub fn new_unconstructed(m_cost: i64, e_cost: i64, buildtime: i64) -> (r: Unit)
        ensures
            r@ == UnitView::unconstructed(m_cost as int, e_cost as int, buildtime as int),
    {
        Unit {
            name: "Unnamed".to_owned(),
            alive: false,
            metal: 0,
            energy: 0,
            buildpower: 0,
            build_target: None,
            build_options: BuildOptions::new(),
            buildtime,
            m_build_cost: m_cost,
            e_build_cost: e_cost,
            e_cost_per_second: 0,
            e_per_second: 0,
            wind_e_per_second: 0,
            e_storage: 0,
            m_per_second: 0,
            m_storage: 0,
        }
    }

    /// Completes the construction: the unit holds its full cost and is alive.
    pub fn construct(&mut self)
        ensures
            final(self)@ == old(self)@.constructed(),
    {
        self.metal = self.m_build_cost;
        self.energy = self.e_build_cost;
        self.alive = true;
    }
}

impl Clone for Unit {
    fn clone(&self) -> (r: Self)
        ensures
            r@ == self@,
    {
        Unit {
            name: self.name.clone(),
            alive: self.alive,
            metal: self.metal,
            energy: self.energy,
            buildpower: self.buildpower,
            build_target: self.build_target,
            build_options: self.build_options.clone(),
            buildtime: self.buildtime,
            m_build_cost: self.m_build_cost,
            e_build_cost: self.e_build_cost,
            e_cost_per_second: self.e_cost_per_second,
            e_per_second: self.e_per_second,
            wind_e_per_second: self.wind_e_per_second,
            e_storage: self.e_storage,
            m_per_second: self.m_per_second,
            m_storage: self.m_storage,
        }
    }
}

} // verus!
