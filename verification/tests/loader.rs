use rebar::float::from_float_bits;
use rebar::loader::{
    load_definition_from_path, parse_definition, Definition, FieldKind, FieldValue, LoadError,
};
use rebar::unit::Unit;

/// The fixed-point number nearest to `x`.
fn fixed(x: f32) -> i64 {
    from_float_bits(x.to_bits())
}

/// The fields that every definition needs.
fn costs(buildtime: i64, metalcost: i64, energycost: i64) -> Definition {
    let mut definition = Definition::new();
    definition.insert("buildtime", FieldValue::Integer(buildtime));
    definition.insert("metalcost", FieldValue::Integer(metalcost));
    definition.insert("energycost", FieldValue::Integer(energycost));
    definition
}

#[test]
fn load_wind() {
    let mut definition = costs(1600, 40, 175);
    definition.insert("windgenerator", FieldValue::Integer(25));
    definition.insert("energystorage", FieldValue::Number(0.5f32.to_bits()));
    let unit = load_definition_from_path(&definition, "WindGenerator").unwrap();

    let mut expected = Unit::new_unconstructed(fixed(40.0), fixed(175.0), fixed(1600.0));
    // Takes the name of its source
    expected.name = "WindGenerator".to_string();
    expected.wind_e_per_second = fixed(25.0);
    expected.e_storage = fixed(0.5);

    assert_eq!(unit, expected);
}

#[test]
fn load_solar() {
    let mut definition = costs(2600, 155, 0);
    definition.insert("name", FieldValue::Text("Basic Solar".to_string()));
    definition.insert("energyupkeep", FieldValue::Integer(-20));
    definition.insert("energystorage", FieldValue::Integer(50));
    let unit = load_definition_from_path(&definition, "Solar").unwrap();
    let mut expected = Unit::new_unconstructed(fixed(155.0), fixed(0.0), fixed(2600.0));
    expected.name = "Basic Solar".to_string();
    expected.e_per_second = fixed(20.0);
    expected.e_storage = fixed(50.0);

    assert_eq!(unit, expected);
}

#[test]
fn load_commander() {
    let mut definition = costs(75000, 2700, 26000);
    definition.insert("name", FieldValue::Text("Commander".to_string()));
    definition.insert("workertime", FieldValue::Integer(300));
    definition.insert("energymake", FieldValue::Integer(30));
    definition.insert("energystorage", FieldValue::Integer(500));
    definition.insert("metalmake", FieldValue::Integer(2));
    definition.insert("metalstorage", FieldValue::Integer(500));
    let unit = load_definition_from_path(&definition, "Commander").unwrap();
    let mut expected = Unit::new_unconstructed(fixed(2700.0), fixed(26000.0), fixed(75000.0));
    expected.name = "Commander".to_string();
    expected.alive = false;
    expected.metal = fixed(0.0);
    expected.energy = fixed(0.0);
    expected.buildpower = fixed(300.0);
    expected.build_target = None;
    expected.e_cost_per_second = fixed(0.0);
    expected.e_per_second = fixed(30.0);
    expected.wind_e_per_second = fixed(0.0);
    expected.e_storage = fixed(500.0);
    expected.m_per_second = fixed(2.0);
    expected.m_storage = fixed(500.0);

    assert_eq!(unit, expected);
}

#[test]
fn defaults_fill_what_a_definition_leaves_out() {
    let unit = parse_definition(&costs(10, 20, 30)).unwrap();
    let mut expected = Unit::new_unconstructed(fixed(20.0), fixed(30.0), fixed(10.0));
    expected.name = "Unknown".to_string();
    assert_eq!(unit, expected);
    assert!(!unit.alive);
    assert_eq!(unit.build_target, None);
    assert!(!unit.build_options.contains("anything"));
}

#[test]
fn a_name_of_its_own_is_kept() {
    let mut definition = costs(1, 1, 1);
    definition.insert("name", FieldValue::Text("Radar".to_string()));
    let unit = load_definition_from_path(&definition, "file").unwrap();
    assert_eq!(unit.name, "Radar");
}

#[test]
fn a_definition_without_a_name_takes_the_name_of_its_source() {
    let definition = costs(1, 1, 1);
    assert!(!definition.contains_key("name"));
    let unit = load_definition_from_path(&definition, "file").unwrap();
    assert_eq!(unit.name, "file");
    assert_eq!(parse_definition(&definition).unwrap().name, "Unknown");
}

#[test]
fn the_name_unknown_is_a_name_of_its_own() {
    let mut definition = costs(1, 1, 1);
    definition.insert("name", FieldValue::Text("Unknown".to_string()));
    assert!(definition.contains_key("name"));
    let unit = load_definition_from_path(&definition, "file").unwrap();
    assert_eq!(unit.name, "Unknown");
    assert_eq!(parse_definition(&definition).unwrap().name, "Unknown");
}

#[test]
fn the_fields_of_a_definition() {
    let mut definition = Definition::new();
    assert!(!definition.contains_key("buildtime"));
    definition.insert("buildtime", FieldValue::Other);
    assert!(definition.contains_key("buildtime"));
    assert!(!definition.contains_key("buildtim"));
    assert!(!definition.contains_key("name"));
}

#[test]
fn negative_upkeep_is_production() {
    let mut definition = costs(1, 1, 1);
    definition.insert("energymake", FieldValue::Number(1.5f32.to_bits()));
    definition.insert("energyupkeep", FieldValue::Number((-20.25f32).to_bits()));
    let unit = parse_definition(&definition).unwrap();
    assert_eq!(unit.e_per_second, 21_750_000);
    assert_eq!(unit.e_cost_per_second, 0);
}

#[test]
fn positive_upkeep_stays_upkeep() {
    let mut definition = costs(1, 1, 1);
    definition.insert("energymake", FieldValue::Integer(4));
    definition.insert("energyupkeep", FieldValue::Integer(3));
    let unit = parse_definition(&definition).unwrap();
    assert_eq!(unit.e_per_second, 4_000_000);
    assert_eq!(unit.e_cost_per_second, 3_000_000);
}

#[test]
fn negative_upkeep_saturates() {
    let mut definition = costs(1, 1, 1);
    definition.insert("energymake", FieldValue::Number(f32::MAX.to_bits()));
    definition.insert("energyupkeep", FieldValue::Number((-1.0f32).to_bits()));
    let unit = parse_definition(&definition).unwrap();
    assert_eq!(unit.e_per_second, i64::MAX);
    assert_eq!(unit.e_cost_per_second, 0);
}

#[test]
fn a_required_field_is_missed() {
    let mut definition = Definition::new();
    definition.insert("metalcost", FieldValue::Integer(1));
    definition.insert("energycost", FieldValue::Integer(1));
    let err = parse_definition(&definition).unwrap_err();
    assert_eq!(err, LoadError::MissingRequiredField("buildtime".to_string()));
    assert_eq!(err.message(), "Required key buildtime is missing.");

    let mut definition = Definition::new();
    definition.insert("buildtime", FieldValue::Integer(1));
    definition.insert("energycost", FieldValue::Integer(1));
    assert_eq!(
        parse_definition(&definition).unwrap_err(),
        LoadError::MissingRequiredField("metalcost".to_string())
    );

    let mut definition = Definition::new();
    definition.insert("buildtime", FieldValue::Integer(1));
    definition.insert("metalcost", FieldValue::Integer(1));
    assert_eq!(
        parse_definition(&definition).unwrap_err(),
        LoadError::MissingRequiredField("energycost".to_string())
    );
}

#[test]
fn a_number_of_the_wrong_type_is_refused() {
    let mut definition = costs(1, 1, 1);
    definition.insert("metalmake", FieldValue::Text("2".to_string()));
    let err = parse_definition(&definition).unwrap_err();
    assert_eq!(err, LoadError::InvalidFieldType("metalmake".to_string(), FieldKind::Float));
    assert_eq!(err.message(), "Attempted to parse invalid float for metalmake.");

    let mut definition = costs(1, 1, 1);
    definition.insert("buildtime", FieldValue::Other);
    assert_eq!(
        parse_definition(&definition).unwrap_err(),
        LoadError::InvalidFieldType("buildtime".to_string(), FieldKind::Float)
    );
}

#[test]
fn a_name_of_the_wrong_type_is_refused() {
    let mut definition = costs(1, 1, 1);
    definition.insert("name", FieldValue::Integer(7));
    let err = load_definition_from_path(&definition, "file").unwrap_err();
    assert_eq!(err, LoadError::InvalidFieldType("name".to_string(), FieldKind::Text));
    assert_eq!(err.message(), "Attempted to parse invalid string for name.");
}

#[test]
fn a_whole_number_must_fit_in_32_bits() {
    let mut definition = costs(1, 1, 1);
    definition.insert("metalstorage", FieldValue::Integer(2_147_483_647));
    assert_eq!(parse_definition(&definition).unwrap().m_storage, 2_147_483_647_000_000);

    definition.insert("metalstorage", FieldValue::Integer(-2_147_483_648));
    assert_eq!(parse_definition(&definition).unwrap().m_storage, -2_147_483_648_000_000);

    definition.insert("metalstorage", FieldValue::Integer(2_147_483_648));
    assert_eq!(
        parse_definition(&definition).unwrap_err(),
        LoadError::InvalidFieldType("metalstorage".to_string(), FieldKind::Float)
    );
}

#[test]
fn the_first_field_that_fails_is_reported() {
    // energymake is read before energyupkeep, the name before the costs, and
    // the costs before the other rates.
    let mut definition = Definition::new();
    definition.insert("metalstorage", FieldValue::Other);
    assert_eq!(
        parse_definition(&definition).unwrap_err(),
        LoadError::MissingRequiredField("buildtime".to_string())
    );
    definition.insert("name", FieldValue::Other);
    assert_eq!(
        parse_definition(&definition).unwrap_err(),
        LoadError::InvalidFieldType("name".to_string(), FieldKind::Text)
    );
    definition.insert("energyupkeep", FieldValue::Other);
    assert_eq!(
        parse_definition(&definition).unwrap_err(),
        LoadError::InvalidFieldType("energyupkeep".to_string(), FieldKind::Float)
    );
    definition.insert("energymake", FieldValue::Other);
    assert_eq!(
        parse_definition(&definition).unwrap_err(),
        LoadError::InvalidFieldType("energymake".to_string(), FieldKind::Float)
    );
}

#[test]
fn a_table_of_one_entry_is_a_wrapper() {
    let mut definition = Definition::new();
    assert_eq!(definition.len(), 0);
    assert!(!definition.is_wrapper());
    definition.insert("armwin", FieldValue::Other);
    assert_eq!(definition.len(), 1);
    assert!(definition.is_wrapper());
    definition.insert("armwin", FieldValue::Integer(1));
    assert!(definition.is_wrapper());
    definition.insert("armsolar", FieldValue::Other);
    assert_eq!(definition.len(), 2);
    assert!(!definition.is_wrapper());
}

#[test]
fn a_float_is_read_to_the_nearest_millionth() {
    let mut definition = costs(1, 1, 1);
    definition.insert("metalmake", FieldValue::Number(0.1f32.to_bits()));
    definition.insert("energymake", FieldValue::Number(0.333_333_34f32.to_bits()));
    definition.insert("windgenerator", FieldValue::Number(f32::NAN.to_bits()));
    definition.insert("energystorage", FieldValue::Number(f32::INFINITY.to_bits()));
    definition.insert("metalstorage", FieldValue::Number(f32::NEG_INFINITY.to_bits()));
    definition.insert("workertime", FieldValue::Number((-0.0f32).to_bits()));
    let unit = parse_definition(&definition).unwrap();
    assert_eq!(unit.m_per_second, 100_000);
    assert_eq!(unit.e_per_second, 333_333);
    assert_eq!(unit.wind_e_per_second, 0);
    assert_eq!(unit.e_storage, i64::MAX);
    assert_eq!(unit.m_storage, i64::MIN);
    assert_eq!(unit.buildpower, 0);
}

#[test]
fn a_later_value_replaces_an_earlier_one() {
    let mut definition = costs(1, 1, 1);
    definition.insert("buildtime", FieldValue::Number(2.5f32.to_bits()));
    assert_eq!(parse_definition(&definition).unwrap().buildtime, 2_500_000);
}
