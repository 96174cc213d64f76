use seekwel::model::{PrimaryKeyField, PrimaryKeyLookup, SqlValue};
use seekwel::Error;

#[test]
fn unsigned_keys_convert_to_association_ids() {
    assert_eq!(7_u8.to_association_id().ok(), Some(7));
    assert_eq!(u64::MAX.to_association_id().ok(), Some(u64::MAX));
}

#[test]
fn negative_keys_have_no_association_id() {
    match (-3_i32).to_association_id() {
        Err(Error::InvalidModel(m)) => assert_eq!(
            m,
            "primary key value -3 cannot be represented as a non-negative association id"
        ),
        _ => panic!("expected an invalid model error"),
    }
    assert_eq!(5_i64.to_association_id().ok(), Some(5));
}

#[test]
fn generated_ids_must_fit_the_key_type() {
    assert_eq!(u8::from_generated_id(255).ok(), Some(255));
    match u8::from_generated_id(256) {
        Err(Error::InvalidModel(m)) => assert_eq!(m, "generated primary key 256 does not fit in u8"),
        _ => panic!("expected an invalid model error"),
    }
    match i64::from_generated_id(u64::MAX) {
        Err(Error::InvalidModel(m)) => assert_eq!(
            m,
            "generated primary key 18446744073709551615 does not fit in i64"
        ),
        _ => panic!("expected an invalid model error"),
    }
    assert_eq!(i16::from_generated_id(42).ok(), Some(42));
}

#[test]
fn lookup_values_bind_as_integers() {
    assert_eq!(42_u32.into_primary_key_value(), SqlValue::Integer(42));
    assert_eq!((-1_i8).into_primary_key_value(), SqlValue::Integer(-1));
    assert_eq!(SqlValue::Null.into_primary_key_value(), SqlValue::Null);
}
