use seekwel::model::validation::{Errors, Invalid, SaveError, ValidationError};
use seekwel::Error;

#[test]
fn column_and_base_errors_keep_their_messages() {
    let e: ValidationError<u8> = ValidationError::on(3, "can't be blank");
    assert_eq!(e.column(), Some(3));
    assert_eq!(e.message(), "can't be blank");
    let b: ValidationError<u8> = ValidationError::base("is invalid");
    assert_eq!(b.column(), None);
    assert_eq!(b.message(), "is invalid");
}

#[test]
fn errors_are_filtered_by_column_in_order() {
    let mut errors: Errors<u8> = Errors::new();
    assert!(errors.is_empty());
    errors.add(1, "can't be blank");
    errors.add_base("record is locked");
    errors.add(2, "is too short");
    errors.add(1, "is taken");
    assert_eq!(errors.len(), 4);
    assert!(!errors.is_empty());
    assert_eq!(errors.on(1), vec!["can't be blank", "is taken"]);
    assert_eq!(errors.on(2), vec!["is too short"]);
    assert!(errors.on(3).is_empty());
    assert_eq!(errors.base(), vec!["record is locked"]);
    assert_eq!(errors.all().len(), 4);
}

#[derive(Debug, Clone, Copy, PartialEq, Eq)]
enum PersonColumns {
    Name,
}

impl seekwel::model::Column for PersonColumns {
    fn as_str(self) -> &'static str {
        match self {
            PersonColumns::Name => "name",
        }
    }
}

#[test]
fn full_messages_prefix_the_column_name() {
    let mut errors: Errors<PersonColumns> = Errors::default();
    errors.add(PersonColumns::Name, "can't be blank");
    errors.add_base("is invalid");
    assert_eq!(
        errors.full_messages(),
        vec!["name can't be blank".to_string(), "is invalid".to_string()]
    );
}

#[test]
fn invalid_keeps_previous_state_and_errors() {
    let mut errors: Errors<u8> = Errors::new();
    errors.add(0, "bad");
    let invalid = Invalid::new("draft", errors);
    assert_eq!(*invalid.previous(), "draft");
    assert_eq!(invalid.errors().len(), 1);
    assert_eq!(invalid.into_errors().on(0), vec!["bad"]);
}

#[test]
fn save_errors_tell_validation_failures_apart() {
    let invalid: SaveError<&str> = SaveError::Invalid("model");
    assert!(invalid.is_invalid());
    assert_eq!(invalid.invalid(), Some(&"model"));
    assert_eq!(invalid.message(), "validation failed");
    assert!(matches!(invalid.into_error(), Error::InvalidModel(m) if m == "validation failed"));

    let other: SaveError<&str> = SaveError::from(Error::NotInitialized);
    assert!(!other.is_invalid());
    assert_eq!(other.message(), "Connection not initialized");
    assert!(other.into_invalid().is_none());
}

#[test]
fn base_and_column_messages_add_up_to_all_errors() {
    let mut errors: Errors<u8> = Errors::new();
    errors.add(1, "can't be blank");
    errors.add_base("record is locked");
    errors.add(2, "is too short");
    errors.add(1, "is taken");
    errors.add_base("is stale");
    let columns: Vec<u8> = {
        let mut seen = Vec::new();
        for e in errors.all() {
            if let Some(c) = e.column() {
                if !seen.contains(&c) {
                    seen.push(c);
                }
            }
        }
        seen
    };
    assert_eq!(columns, vec![1, 2]);
    let on_columns: usize = columns.iter().map(|c| errors.on(*c).len()).sum();
    assert_eq!(errors.base().len() + on_columns, errors.len());
}
