//! Unit templates out of definitions.
//!
//! A definition is a table of named fields, as an interpreter of a definition
//! text hands it over. The loader reads the fields it knows, fills in the
//! defaults, and says which field is missing or of the wrong type.

use vstd::prelude::*;
use vstd::hash_map::StringHashMap;
use vstd::string::StringExecFns;
use crate::fixed::{difference, sat_sub, SCALE};
use crate::float::{from_float_bits, nearest};
use crate::unit::{BuildOptions, Unit, UnitView};

verus! {

/// The value of a field of a definition.
#[derive(Debug, PartialEq)]
pub enum FieldValue {
    /// A whole number, as written.
    Integer(i64),
    /// A floating-point number, as the bits of a single-precision float.
    Number(u32),
    /// A string.
    Text(String),
    /// Anything else: a truth value, a table, a function.
    Other,
}

/// What the value of a field is, mathematically.
pub enum FieldValueView {
    Integer(int),
    Number(u32),
    Text(Seq<char>),
    Other,
}

impl View for FieldValue {
    type V = FieldValueView;

    open spec fn view(&self) -> FieldValueView {
        match *self {
            FieldValue::Integer(i) => FieldValueView::Integer(i as int),
            FieldValue::Number(bits) => FieldValueView::Number(bits),
            FieldValue::Text(s) => FieldValueView::Text(s@),
            FieldValue::Other => FieldValueView::Other,
        }
    }
}

/// The type that a field was read as.
#[derive(Clone, Copy, Debug, PartialEq, Eq)]
pub enum FieldKind {
    Float,
    Text,
}

/// Why a definition gives no template.
#[derive(Debug, PartialEq)]
pub enum LoadError {
    /// The definition lacks this field, which has no default.
    MissingRequiredField(String),
    /// The value of this field cannot be read as the type that the field has.
    InvalidFieldType(String, FieldKind),
}

/// What a loader's error is, mathematically.
pub enum LoadErrorView {
    MissingRequiredField(Seq<char>),
    InvalidFieldType(Seq<char>, FieldKind),
}

impl View for LoadError {
    type V = LoadErrorView;

    open spec fn view(&self) -> LoadErrorView {
        match *self {
            LoadError::MissingRequiredField(key) => LoadErrorView::MissingRequiredField(key@),
            LoadError::InvalidFieldType(key, kind) => LoadErrorView::InvalidFieldType(key@, kind),
        }
    }
}

impl LoadError {
    /// The error in words.
    pub fn message(&self) -> (r: String)
        ensures
            r@ == match self@ {
                LoadErrorView::MissingRequiredField(key) => "Required key "@ + key
                    + " is missing."@,
                LoadErrorView::InvalidFieldType(key, FieldKind::Float) =>
                    "Attempted to parse invalid float for "@ + key + "."@,
                LoadErrorView::InvalidFieldType(key, FieldKind::Text) =>
                    "Attempted to parse invalid string for "@ + key + "."@,
            },
    {
        match self {
            LoadError::MissingRequiredField(key) => {
                String::from_str("Required key ").concat(key.as_str()).concat(" is missing.")
            },
            LoadError::InvalidFieldType(key, FieldKind::Float) => {
                String::from_str("Attempted to parse invalid float for ").concat(
                    key.as_str(),
                ).concat(".")
            },
            LoadError::InvalidFieldType(key, FieldKind::Text) => {
                String::from_str("Attempted to parse invalid string for ").concat(
                    key.as_str(),
                ).concat(".")
            },
        }
    }
}

/// A definition: the fields of a table, by name.
pub struct Definition {
    fields: StringHashMap<FieldValue>,
}

impl View for Definition {
    type V = Map<Seq<char>, FieldValueView>;

    closed spec fn view(&self) -> Map<Seq<char>, FieldValueView> {
        self.fields@.map_values(|v: FieldValue| v@)
    }
}

/// The number that the field `key` gives, if the definition has the field:
/// a whole number must fit in 32 bits, and counts as so many wholes; a float
/// gives the fixed-point number nearest to it.
pub open spec fn number(fields: Map<Seq<char>, FieldValueView>, key: Seq<char>) -> Result<
    int,
    LoadErrorView,
> {
    match fields[key] {
        FieldValueView::Integer(i) => if i32::MIN <= i <= i32::MAX {
            Ok(i * SCALE)
        } else {
            Err(LoadErrorView::InvalidFieldType(key, FieldKind::Float))
        },
        FieldValueView::Number(bits) => Ok(nearest(bits)),
        _ => Err(LoadErrorView::InvalidFieldType(key, FieldKind::Float)),
    }
}

/// The number that the optional field `key` gives.
pub open spec fn float_or(fields: Map<Seq<char>, FieldValueView>, key: Seq<char>, default: int)
    -> Result<int, LoadErrorView> {
    if fields.contains_key(key) {
        number(fields, key)
    } else {
        Ok(default)
    }
}

/// The number that the required field `key` gives.
pub open spec fn float(fields: Map<Seq<char>, FieldValueView>, key: Seq<char>) -> Result<
    int,
    LoadErrorView,
> {
    if fields.contains_key(key) {
        number(fields, key)
    } else {
        Err(LoadErrorView::MissingRequiredField(key))
    }
}

/// The string that the optional field `key` gives.
pub open spec fn string_or(
    fields: Map<Seq<char>, FieldValueView>,
    key: Seq<char>,
    default: Seq<char>,
) -> Result<Seq<char>, LoadErrorView> {
    if fields.contains_key(key) {
        match fields[key] {
            FieldValueView::Text(s) => Ok(s),
            _ => Err(LoadErrorView::InvalidFieldType(key, FieldKind::Text)),
        }
    } else {
        Ok(default)
    }
}

/// The template that a definition gives.
///
/// The fields are read in the order in which they stand here, and the first
/// that cannot be read gives the error. An upkeep below 0 is production: its
/// amount goes to what the unit makes, and the upkeep is 0.
pub open spec fn template(fields: Map<Seq<char>, FieldValueView>) -> Result<
    UnitView,
    LoadErrorView,
> {
    let energymake = float_or(fields, "energymake"@, 0);
    let energyupkeep = float_or(fields, "energyupkeep"@, 0);
    let name = string_or(fields, "name"@, "Unknown"@);
    let buildtime = float(fields, "buildtime"@);
    let metalcost = float(fields, "metalcost"@);
    let energycost = float(fields, "energycost"@);
    let workertime = float_or(fields, "workertime"@, 0);
    let windgenerator = float_or(fields, "windgenerator"@, 0);
    let energystorage = float_or(fields, "energystorage"@, 0);
    let metalmake = float_or(fields, "metalmake"@, 0);
    let metalstorage = float_or(fields, "metalstorage"@, 0);
    if energymake is Err {
        Err(energymake->Err_0)
    } else if energyupkeep is Err {
        Err(energyupkeep->Err_0)
    } else if name is Err {
        Err(name->Err_0)
    } else if buildtime is Err {
        Err(buildtime->Err_0)
    } else if metalcost is Err {
        Err(metalcost->Err_0)
    } else if energycost is Err {
        Err(energycost->Err_0)
    } else if workertime is Err {
        Err(workertime->Err_0)
    } else if windgenerator is Err {
        Err(windgenerator->Err_0)
    } else if energystorage is Err {
        Err(energystorage->Err_0)
    } else if metalmake is Err {
        Err(metalmake->Err_0)
    } else if metalstorage is Err {
        Err(metalstorage->Err_0)
    } else {
        let produces = energyupkeep->Ok_0 < 0;
        Ok(
            UnitView {
                name: name->Ok_0,
                alive: false,
                metal: 0,
                energy: 0,
                buildpower: workertime->Ok_0,
                build_target: None,
                build_options: Set::empty(),
                buildtime: buildtime->Ok_0,
                m_build_cost: metalcost->Ok_0,
                e_build_cost: energycost->Ok_0,
                e_cost_per_second: if produces {
                    0
                } else {
                    energyupkeep->Ok_0
                },
                e_per_second: if produces {
                    difference(energymake->Ok_0, energyupkeep->Ok_0)
                } else {
                    energymake->Ok_0
                },
                wind_e_per_second: windgenerator->Ok_0,
                e_storage: energystorage->Ok_0,
                m_per_second: metalmake->Ok_0,
                m_storage: metalstorage->Ok_0,
            },
        )
    }
}

/// The template that a definition from a named source gives: where the
/// definition has no field `name`, the template takes the source's name.
pub open spec fn template_from(fields: Map<Seq<char>, FieldValueView>, source: Seq<char>)
    -> Result<UnitView, LoadErrorView> {
    match template(fields) {
        Ok(unit) => Ok(
            if fields.contains_key("name"@) {
                unit
            } else {
                UnitView { name: source, ..unit }
            },
        ),
        Err(e) => Err(e),
    }
}

impl Definition {
    /// A definition without fields.
    pub fn new() -> (r: Definition)
        ensures
            r@ == Map::<Seq<char>, FieldValueView>::empty(),
    {
        let r = Definition { fields: StringHashMap::new() };
        assert(r@ =~= Map::<Seq<char>, FieldValueView>::empty());
        r
    }

    /// Sets the field `key` to `value`, in place of any earlier value.
    pub fn insert(&mut self, key: &str, value: FieldValue)
        ensures
            final(self)@ == old(self)@.insert(key@, value@),
    {
        self.fields.insert(key.to_owned(), value);
        assert(self@ =~= old(self)@.insert(key@, value@));
    }

    /// Whether the definition has the field `key`.
    pub fn contains_key(&self, key: &str) -> (r: bool)
        ensures
            r == self@.contains_key(key@),
    {
        self.fields.contains_key(key)
    }

    /// The number of fields.
    pub fn len(&self) -> (r: usize)
        ensures
            r == self@.len(),
    {
        proof {
            lemma_values_keep_len(self.fields@);
        }
        self.fields.len()
    }

    /// Whether the definition only wraps the table that holds the fields: it
    /// does if it has exactly one entry.
    pub fn is_wrapper(&self) -> (r: bool)
        ensures
            r == (self@.len() == 1),
    {
        self.len() == 1
    }

    fn number(&self, key: &str, value: &FieldValue) -> (r: Result<i64, LoadError>)
        requires
            self@.contains_key(key@),
            self@[key@] == value@,
        ensures
            match r {
                Ok(x) => number(self@, key@) == Ok::<int, LoadErrorView>(x as int),
                Err(e) => number(self@, key@) == Err::<int, LoadErrorView>(e@),
            },
    {
        match value {
            FieldValue::Integer(i) => {
                if i32::MIN as i64 <= *i && *i <= i32::MAX as i64 {
                    Ok(*i * SCALE)
                } else {
                    Err(LoadError::InvalidFieldType(key.to_owned(), FieldKind::Float))
                }
            },
            FieldValue::Number(bits) => Ok(from_float_bits(*bits)),
            _ => Err(LoadError::InvalidFieldType(key.to_owned(), FieldKind::Float)),
        }
    }

    fn get_float_or(&self, key: &str, default: i64) -> (r: Result<i64, LoadError>)
        ensures
            match r {
                Ok(x) => float_or(self@, key@, default as int) == Ok::<int, LoadErrorView>(
                    x as int,
                ),
                Err(e) => float_or(self@, key@, default as int) == Err::<int, LoadErrorView>(e@),
            },
    {
        match self.fields.get(key) {
            Some(value) => self.number(key, value),
            None => Ok(default),
        }
    }

    fn get_float(&self, key: &str) -> (r: Result<i64, LoadError>)
        ensures
            match r {
                Ok(x) => float(self@, key@) == Ok::<int, LoadErrorView>(x as int),
                Err(e) => float(self@, key@) == Err::<int, LoadErrorView>(e@),
            },
    {
        match self.fields.get(key) {
            Some(value) => self.number(key, value),
            None => Err(LoadError::MissingRequiredField(key.to_owned())),
        }
    }

    fn get_string_or(&self, key: &str, default: &str) -> (r: Result<String, LoadError>)
        ensures
            match r {
                Ok(s) => string_or(self@, key@, default@) == Ok::<Seq<char>, LoadErrorView>(s@),
                Err(e) => string_or(self@, key@, default@) == Err::<Seq<char>, LoadErrorView>(
                    e@,
                ),
            },
    {
        match self.fields.get(key) {
            Some(FieldValue::Text(s)) => Ok(s.clone()),
            Some(_) => Err(LoadError::InvalidFieldType(key.to_owned(), FieldKind::Text)),
            None => Ok(default.to_owned()),
        }
    }
}

/// A map has as many entries as the map of its values' views.
proof fn lemma_values_keep_len(fields: Map<Seq<char>, FieldValue>)
    ensures
        fields.map_values(|v: FieldValue| v@).len() == fields.len(),
{
    assert(fields.map_values(|v: FieldValue| v@).dom() =~= fields.dom());
}

/// Reads the template that `definition` gives.
pub fn parse_definition(definition: &Definition) -> (r: Result<Unit, LoadError>)
    ensures
        match r {
            Ok(unit) => template(definition@) == Ok::<UnitView, LoadErrorView>(unit@),
            Err(e) => template(definition@) == Err::<UnitView, LoadErrorView>(e@),
        },
{
    let mut e_per_sec: i64 = definition.get_float_or("energymake", 0)?;
    let mut e_cost: i64 = definition.get_float_or("energyupkeep", 0)?;
    if e_cost < 0 {
        e_per_sec = sat_sub(e_per_sec, e_cost);
        e_cost = 0;
    }
    Ok(
        Unit {
            name: definition.get_string_or("name", "Unknown")?,
            alive: false,
            metal: 0,
            energy: 0,
            buildtime: definition.get_float("buildtime")?,
            m_build_cost: definition.get_float("metalcost")?,
            e_build_cost: definition.get_float("energycost")?,
            buildpower: definition.get_float_or("workertime", 0)?,
            build_target: None,
            build_options: BuildOptions::new(),
            e_cost_per_second: e_cost,
            e_per_second: e_per_sec,
            wind_e_per_second: definition.get_float_or("windgenerator", 0)?,
            e_storage: definition.get_float_or("energystorage", 0)?,
            m_per_second: definition.get_float_or("metalmake", 0)?,
            m_storage: definition.get_float_or("metalstorage", 0)?,
        },
    )
}

/// Reads the template that `definition` gives, where the definition came from
/// the source named `source`: where the definition has no field `name`, the
/// template takes that name.
pub fn load_definition_from_path(definition: &Definition, source: &str) -> (r: Result<
    Unit,
    LoadError,
>)
    ensures
        match r {
            Ok(unit) => template_from(definition@, source@) == Ok::<UnitView, LoadErrorView>(
                unit@,
            ),
            Err(e) => template_from(definition@, source@) == Err::<UnitView, LoadErrorView>(e@),
        },
{
    let mut unit: Unit = parse_definition(definition)?;
    if !definition.contains_key("name") {
        unit.name = source.to_owned();
    }
    Ok(unit)
}

} // verus!
