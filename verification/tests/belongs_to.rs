use seekwel::model::BelongsTo;

struct Target;

#[test]
fn from_u32_round_trips_through_u64() {
    let association: BelongsTo<Target> = 42_u32.into();
    assert_eq!(association.id(), 42);
}

#[test]
fn from_i64_round_trips_for_non_negative_values() {
    let association: BelongsTo<Target> = BelongsTo::from_i64(42_i64);
    assert_eq!(association.id(), 42);
}

#[test]
fn clone_keeps_the_id_and_equality_compares_ids() {
    let a: BelongsTo<Target> = BelongsTo::new(7);
    let b = a.clone();
    assert!(a == b);
    assert!(a != BelongsTo::<Target>::new(8));
}

#[test]
fn cache_and_clear_cache_keep_the_id() {
    let mut a: BelongsTo<String> = BelongsTo::new(3);
    assert!(a.cached().is_none());
    a.cache("parent".to_string());
    assert_eq!(a.cached().map(|s| s.as_str()), Some("parent"));
    a.clear_cache();
    assert!(a.cached().is_none());
    assert_eq!(a.id(), 3);
}
