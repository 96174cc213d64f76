use seekwel::model_macro::front::{field_attr_from, model_args_from, split_item, split_list, type_from};
use seekwel::model_macro::input::{
    derive_input_from, derive_model_source, expand_model_source, field_from, item_struct_from,
    model_derive_source, plain_model_source,
};
use seekwel::model_macro::attribute::ModelArgSyntax;
use seekwel::model_macro::syntax::{
    DataSyntax, ExprSyntax, FieldAttrSyntax, GenericParamSyntax, PathArgsSyntax, TypeSyntax,
};

const UNPARSABLE: &str = "seekwel: the macro input does not parse as a model declaration";

const PERSON: &str =
    "pub struct Person<S> { id: u64, name: String, age: Option<u8>, _state: std::marker::PhantomData<S> }";

fn ok(r: Result<String, String>) -> String {
    match r {
        Ok(s) => s,
        Err(message) => panic!("unexpected refusal: {message}"),
    }
}

fn refused(r: Result<String, String>) -> String {
    match r {
        Ok(s) => panic!("expected a refusal, got: {s}"),
        Err(message) => message,
    }
}

#[test]
fn lists_split_at_top_level_commas() {
    assert_eq!(split_list("").unwrap(), Vec::<String>::new());
    assert_eq!(split_list("   ").unwrap(), Vec::<String>::new());
    assert_eq!(split_list(" a = 1 , b = 2 ,").unwrap(), vec!["a = 1".to_string(), "b = 2".to_string()]);
    assert_eq!(
        split_list("x = \"a, \\\"b\", y = Vec<u8, u16>, z = f(1, [2, 3])").unwrap(),
        vec!["x = \"a, \\\"b\"".to_string(), "y = Vec<u8, u16>".to_string(), "z = f(1, [2, 3])".to_string()]
    );
    assert!(split_list("a,,b").is_none());
    assert!(split_list(", a").is_none());
    assert!(split_list(" , ").is_none());
}

#[test]
fn list_items_split_at_the_first_equals_sign() {
    assert_eq!(split_item(" table_name = \"a=b\" "), ("table_name".to_string(), Some("\"a=b\"".to_string())));
    assert_eq!(split_item("key"), ("key".to_string(), None));
}

#[test]
fn model_arguments_convert_from_text() {
    let args = model_args_from("table_name = \"people\", auto_increment = false, validator = crate::Check, colour = 1")
        .unwrap();
    assert_eq!(args.len(), 4);
    assert!(matches!(&args[0], ModelArgSyntax::TableName(t) if t == "people"));
    assert!(matches!(&args[1], ModelArgSyntax::AutoIncrement(false)));
    assert!(matches!(&args[2], ModelArgSyntax::Validator(p) if p == "crate :: Check"));
    assert!(matches!(&args[3], ModelArgSyntax::Unsupported));
    assert!(model_args_from("table_name").is_none());
    assert!(model_args_from("table_name = people").is_none());
    assert!(model_args_from("auto_increment = 1").is_none());
    assert!(model_args_from("").unwrap().is_empty());
}

#[test]
fn types_convert_segment_by_segment() {
    let t = type_from("std::option::Option<Vec<u8>>", 40).unwrap();
    match t {
        TypeSyntax::Path { qualified, segments } => {
            assert!(!qualified);
            assert_eq!(segments.len(), 3);
            assert_eq!(segments[2].ident, "Option");
            match &segments[2].args {
                PathArgsSyntax::AngleBracketed(args) => assert_eq!(args.len(), 1),
                _ => panic!("expected angle-bracketed arguments"),
            }
        }
        TypeSyntax::Other => panic!("expected a path type"),
    }
    assert!(matches!(type_from("&str", 10).unwrap(), TypeSyntax::Other));
    assert!(matches!(type_from("::std::string::String", 10).unwrap(), TypeSyntax::Path { qualified: true, .. }));
    assert!(type_from("Option<u8>", 0).is_none());
    assert!(type_from("Option<", 10).is_none());
}

#[test]
fn fields_keep_their_printed_types() {
    let f = field_from("#[key = owner_ref] owner: Option<BelongsTo<Person>>", true).unwrap();
    assert_eq!(f.ident, "owner");
    assert_eq!(f.ty_text, "Option < BelongsTo < Person > >");
    assert_eq!(f.inner_ty_text, "BelongsTo < Person >");
    assert_eq!(f.target_ty_text, "Person");
    assert_eq!(f.attrs.len(), 1);
    match &f.attrs[0] {
        FieldAttrSyntax::Key(ExprSyntax::Path { segments, .. }) => assert_eq!(segments[0].ident, "owner_ref"),
        _ => panic!("expected a key attribute"),
    }
    let plain = field_from("#[key = owner_ref] name: String", false).unwrap();
    assert!(plain.attrs.is_empty());
    assert_eq!(plain.inner_ty_text, "");
    assert_eq!(plain.target_ty_text, "");
    assert!(field_from("#[seekwel(key)] name: String", true).is_none());
    assert!(field_from("#[seekwel(key)] name: String", false).is_some());
    assert!(matches!(field_attr_from("key").unwrap(), FieldAttrSyntax::KeyNotNameValue));
    assert!(field_attr_from("seekwel = 1").is_none());
}

#[test]
fn structs_convert_from_text() {
    let d = derive_input_from(PERSON, false).unwrap();
    assert_eq!(d.vis, "pub");
    assert_eq!(d.name, "Person");
    assert_eq!(d.generics, vec![GenericParamSyntax::Type]);
    match &d.data {
        DataSyntax::NamedStruct(fields) => {
            assert_eq!(fields.len(), 4);
            assert_eq!(fields[3].ident, "_state");
        }
        _ => panic!("expected named fields"),
    }
    let e = derive_input_from("enum E { A }", false).unwrap();
    assert!(matches!(e.data, DataSyntax::NotStruct));
    let t = derive_input_from("struct T<'a, const N: usize>(u8);", false).unwrap();
    assert_eq!(t.generics, vec![GenericParamSyntax::Lifetime, GenericParamSyntax::Const]);
    assert!(matches!(t.data, DataSyntax::OtherStruct));
    let it = item_struct_from("struct Unit;", true).unwrap();
    assert!(it.fields.is_none());
    assert_eq!(it.vis, "");
    assert!(item_struct_from("enum E { A }", true).is_none());
    assert!(item_struct_from("#[seekwel(table_name)] struct P { id: u64 }", true).is_none());
    assert!(item_struct_from("#[seekwel(table_name)] struct P { id: u64 }", false).is_some());
}

#[test]
fn derive_from_text_generates_the_impls() {
    let source = ok(derive_model_source(PERSON));
    assert!(source.starts_with("impl<S> seekwel::model::Model for Person<S> {\n"));
    assert!(source.contains(
        "&[seekwel::model::ColumnDef { name: \"name\", sql_type: \"TEXT\", nullable: false }, seekwel::model::ColumnDef { name: \"age\", sql_type: \"INTEGER\", nullable: true }]"
    ));
    assert!(source.contains("pub struct PersonBuilder {\n"));
    assert!(source.contains("_state: std::marker::PhantomData })"));
    let with_attrs = ok(derive_model_source(
        "#[seekwel(nonsense)] pub struct Person<S> { #[seekwel(key)] id: u64, _state: std::marker::PhantomData<S> }",
    ));
    assert!(with_attrs.contains("for Person<S>"));
}

#[test]
fn derive_from_text_refusals() {
    assert_eq!(refused(derive_model_source("pub struct Person<S> {")), UNPARSABLE);
    assert_eq!(refused(derive_model_source("enum Person<S> { A(S) }")), "Model can only be derived for structs");
    assert_eq!(
        refused(derive_model_source("struct Person<S>(u64, S);")),
        "Model only supports structs with named fields"
    );
    assert_eq!(
        refused(derive_model_source("struct Person<S> { id: u32, s: std::marker::PhantomData<S> }")),
        "The `id` field must have type `u64`"
    );
    assert_eq!(
        refused(derive_model_source("struct Person { id: u64, s: std::marker::PhantomData<u8> }")),
        "Model derives require exactly one typestate type parameter; use #[seekwel::model] to generate it automatically"
    );
}

#[test]
fn model_derive_from_text_reads_its_attributes() {
    let source = ok(model_derive_source(
        "#[seekwel(table_name = \"people\")] pub struct Person<S> { id: u64, name: String, __seekwel_state: std::marker::PhantomData<S> }",
    ));
    assert!(source.contains("\"people\""));
    assert_eq!(
        refused(model_derive_source(
            "#[seekwel(table_name)] pub struct Person<S> { id: u64, __seekwel_state: std::marker::PhantomData<S> }",
        )),
        UNPARSABLE
    );
}

#[test]
fn model_attribute_from_text_expands_and_derives() {
    let source = ok(expand_model_source(
        "table_name = \"people\", auto_increment = false",
        "pub struct Person { id: u64, name: String }",
    ));
    assert!(source.contains("\"people\""));
    let default = ok(expand_model_source("", "pub struct Person { id: u64, name: String }"));
    assert!(default.contains("\"person\""));
}

#[test]
fn model_attribute_from_text_refusals() {
    let person = "pub struct Person { id: u64, name: String }";
    assert_eq!(
        refused(expand_model_source("table_name = \"a\", table_name = \"b\"", person)),
        "duplicate `table_name` option"
    );
    assert_eq!(
        refused(expand_model_source("colour = \"red\"", person)),
        "unsupported seekwel::model option; expected `table_name`, `primary_key`, `auto_increment`, or `validator`"
    );
    assert_eq!(refused(expand_model_source("table_name", person)), UNPARSABLE);
    assert_eq!(refused(expand_model_source("colour = \"red\"", "struct {")), 
        "unsupported seekwel::model option; expected `table_name`, `primary_key`, `auto_increment`, or `validator`");
    assert_eq!(refused(expand_model_source("", "struct {")), UNPARSABLE);
    assert_eq!(
        refused(expand_model_source("", "struct Person<T> { id: u64 }")),
        "seekwel::model only supports non-generic structs; the macro injects the typestate generic for you"
    );
    assert_eq!(
        refused(expand_model_source("", "struct Person(u64);")),
        "seekwel::model only supports structs with named fields"
    );
    assert_eq!(
        refused(expand_model_source("", "struct Person { id: u64, __seekwel_state: u8 }")),
        "field name __seekwel_state is reserved by seekwel::model"
    );
}

#[test]
fn plain_model_attribute_from_text() {
    let source = ok(plain_model_source("  ", "pub struct Person { id: u64, name: String }"));
    assert!(source.starts_with("impl<S> seekwel::model::Model for Person<S> {\n"));
    assert!(source.contains("__seekwel_state: std::marker::PhantomData"));
    assert_eq!(
        refused(plain_model_source("table_name = \"x\"", "pub struct Person { id: u64 }")),
        "seekwel::model does not take arguments"
    );
    assert_eq!(refused(plain_model_source("", "struct {")), UNPARSABLE);
    assert_eq!(
        refused(plain_model_source("", "struct Person { name: String }")),
        "Model structs must contain exactly one `id` field"
    );
}
