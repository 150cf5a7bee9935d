use rebar::float::from_float_bits;
use rebar::unit::Unit;

/// The fixed-point number nearest to `x`.
fn to_fixed(x: f32) -> i64 {
    from_float_bits(x.to_bits())
}

#[test]
fn test_unconstructed() {
    let unit = Unit::new_unconstructed(to_fixed(10.0), to_fixed(50.0), to_fixed(1000.0));
    assert!(!unit.alive);
    assert_eq!(unit.build_target, None);
    assert_eq!(unit.m_build_cost, to_fixed(10.0));
    assert_eq!(unit.e_build_cost, to_fixed(50.0));
    assert_eq!(unit.buildtime, to_fixed(1000.0));
}

#[test]
fn test_contruction() {
    let mut unit = Unit::new_unconstructed(to_fixed(10.0), to_fixed(50.0), to_fixed(1000.0));
    unit.construct();

    assert!(unit.alive);
    assert_eq!(unit.metal, to_fixed(10.0));
    assert_eq!(unit.energy, to_fixed(50.0));
}

#[test]
fn a_new_template_is_bare() {
    let unit = Unit::new_unconstructed(1, 2, 3);
    assert_eq!(unit.name, "Unnamed");
    assert!(!unit.alive);
    assert_eq!(unit.metal, 0);
    assert_eq!(unit.energy, 0);
    assert_eq!(unit.buildpower, 0);
    assert_eq!(unit.e_cost_per_second, 0);
    assert_eq!(unit.e_per_second, 0);
    assert_eq!(unit.wind_e_per_second, 0);
    assert_eq!(unit.e_storage, 0);
    assert_eq!(unit.m_per_second, 0);
    assert_eq!(unit.m_storage, 0);
    assert!(!unit.build_options.contains("Unnamed"));
}

#[test]
fn construction_changes_only_what_it_says() {
    let mut unit = Unit::new_unconstructed(10, 50, 1000);
    unit.buildpower = 4;
    unit.build_target = Some(3);
    unit.metal = 7;
    let before = unit.clone();
    unit.construct();
    assert!(unit.alive);
    assert_eq!(unit.metal, 10);
    assert_eq!(unit.energy, 50);
    assert_eq!(unit.build_target, Some(3));
    assert_eq!(unit.buildpower, 4);
    assert_eq!(unit.buildtime, before.buildtime);
    assert_eq!(unit.name, before.name);

    // Once more changes nothing.
    let once = unit.clone();
    unit.construct();
    assert_eq!(unit, once);
}

#[test]
fn a_copy_is_equal_and_its_own() {
    let mut unit = Unit::new_unconstructed(10, 50, 1000);
    unit.name = "mex".to_string();
    unit.build_options.insert("wind".to_string());
    let mut copy = unit.clone();
    assert_eq!(copy, unit);
    copy.build_options.insert("solar".to_string());
    copy.metal = 5;
    assert!(copy.build_options.contains("solar"));
    assert!(!unit.build_options.contains("solar"));
    assert_eq!(unit.metal, 0);
}

#[test]
fn options_are_a_set_of_names() {
    let mut unit = Unit::new_unconstructed(1, 1, 1);
    assert!(!unit.build_options.contains("wind"));
    assert!(unit.build_options.insert("wind".to_string()));
    assert!(unit.build_options.contains("wind"));
    assert!(!unit.build_options.contains("win"));
    assert!(!unit.build_options.contains("winds"));
    assert!(!unit.build_options.contains(""));
    assert!(!unit.build_options.insert("wind".to_string()));
    assert!(unit.build_options.insert("".to_string()));
    assert!(unit.build_options.contains(""));
    assert!(unit.build_options.contains("wind"));
}

#[test]
fn options_are_equal_whatever_their_order() {
    let mut a = Unit::new_unconstructed(1, 1, 1);
    let mut b = Unit::new_unconstructed(1, 1, 1);
    a.build_options.insert("wind".to_string());
    a.build_options.insert("solar".to_string());
    b.build_options.insert("solar".to_string());
    assert_ne!(a, b);
    assert_ne!(b, a);
    b.build_options.insert("wind".to_string());
    assert_eq!(a, b);
    assert_eq!(a.build_options, b.build_options);
    b.build_options.insert("mex".to_string());
    assert_ne!(a.build_options, b.build_options);
    assert_ne!(b.build_options, a.build_options);
}
