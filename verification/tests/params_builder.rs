use seekwel::model::builder::{Optional, Required};
use seekwel::model::params::{check_key_params, Param, ParamValue};
use seekwel::Error;

#[test]
fn required_fields_must_be_set() {
    let missing: Required<String> = Required::default();
    match missing.finish("name") {
        Err(Error::MissingField(field)) => assert_eq!(field, "name"),
        _ => panic!("expected a missing field"),
    }
    let mut set: Required<String> = Required::default();
    set.set("Pat".to_string());
    assert_eq!(set.finish("name").ok(), Some("Pat".to_string()));
}

#[test]
fn optional_fields_default_to_none() {
    let unset: Optional<u8> = Optional::default();
    assert_eq!(unset.finish(), None);
    let mut explicit: Optional<u8> = Optional::default();
    explicit.set(None);
    assert_eq!(explicit.finish(), None);
    let mut some: Optional<u8> = Optional::default();
    some.set(Some(123));
    assert_eq!(some.finish(), Some(123));
}

#[test]
fn params_track_whether_a_value_was_provided() {
    let missing: Param<u8> = Param::missing();
    assert!(!missing.is_provided());
    assert_eq!(missing.as_ref(), None);
    let provided = Param::provided(7_u8);
    assert!(provided.is_provided());
    assert_eq!(provided.as_ref(), Some(&7));
    assert_eq!(provided.into_value(), Some(7));
}

#[test]
fn param_values_keep_their_raw_text() {
    let v = ParamValue::new("hello".to_string());
    assert_eq!(v.as_str(), "hello");
    assert_eq!(v.into_string(), "hello");
}

#[test]
fn form_booleans_ignore_case_and_surrounding_space() {
    for truthy in ["1", "true", " TRUE ", "On", "yes"] {
        assert_eq!(ParamValue::new(truthy.to_string()).bool_value(), Some(true), "{truthy}");
    }
    for falsey in ["0", "false", "OFF", " no\t"] {
        assert_eq!(ParamValue::new(falsey.to_string()).bool_value(), Some(false), "{falsey}");
    }
    for other in ["", "maybe", "2", "y"] {
        assert_eq!(ParamValue::new(other.to_string()).bool_value(), None, "{other}");
    }
}

#[test]
fn params_assign_only_allowed_columns() {
    assert_eq!(Param::provided(5_u8).for_new_record(true, "age").ok(), Some(5));
    match Param::provided(5_u8).for_new_record(false, "age") {
        Err(seekwel::Error::MissingField(column)) => assert_eq!(column, "age"),
        _ => panic!("a column that is not allowed is missing"),
    }
    match Param::<u8>::missing().for_new_record(true, "age") {
        Err(seekwel::Error::MissingField(column)) => assert_eq!(column, "age"),
        _ => panic!("a missing field is missing"),
    }

    let mut name = "Pat".to_string();
    Param::provided("Sam".to_string()).apply_to(false, &mut name);
    assert_eq!(name, "Pat");
    Param::<String>::missing().apply_to(true, &mut name);
    assert_eq!(name, "Pat");
    Param::provided("Sam".to_string()).apply_to(true, &mut name);
    assert_eq!(name, "Sam");

    assert_eq!(Param::provided(Some(3_u8)).optional_for_new_record(true), Some(3));
    assert_eq!(Param::provided(Some(3_u8)).optional_for_new_record(false), None);
    assert_eq!(Param::<Option<u8>>::missing().optional_for_new_record(true), None);
}

#[test]
fn params_may_not_set_generated_or_existing_keys() {
    assert!(check_key_params(false, "id", true, false).is_ok());
    assert!(check_key_params(true, "code", false, false).is_ok());
    match check_key_params(true, "id", true, false) {
        Err(seekwel::Error::InvalidParams(m)) => assert_eq!(m, "column `id` is not assignable from params"),
        _ => panic!("expected a refusal"),
    }
    match check_key_params(true, "code", false, true) {
        Err(seekwel::Error::InvalidParams(m)) => assert_eq!(m, "column `code` is not assignable by update params"),
        _ => panic!("expected a refusal"),
    }
}
