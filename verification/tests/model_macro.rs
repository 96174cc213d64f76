use seekwel::model_macro::analysis::{analyze_model, ModelFieldSpec, ModelSpec};
use seekwel::model_macro::generated::generated_model;
use seekwel::model_macro::source::{
    associations_source, builder_source, columns_impl_source, model_source,
    new_model_source, params_source, persisted_source, records_source, registry_source,
};
use seekwel::model_macro::simple_derive::{analyze_derive, derived_source, sql_type_name, value_expr};
use seekwel::model_macro::attribute::{
    expand_model_attribute, expand_plain_model_attribute, ItemStructSyntax, ModelArgSyntax,
};
use seekwel::model_macro::layout::{allow_all_variants, generated_names, insert_column_names, params_field_name};
use seekwel::model_macro::naming::{
    association_handler_name, column_variant_name, column_words, ident_name, lowercase_text,
};
use seekwel::model_macro::syntax::{
    DataSyntax, DeriveInputSyntax, ExprSyntax, FieldAttrSyntax, FieldSyntax, GenericArgSyntax,
    GenericParamSyntax, ModelAttrSyntax, ModelOptionSyntax, PathArgsSyntax, SegmentSyntax,
    TypeSyntax,
};

fn plain(name: &str) -> TypeSyntax {
    TypeSyntax::Path {
        qualified: false,
        segments: vec![SegmentSyntax { ident: name.to_string(), args: PathArgsSyntax::Bare }],
    }
}

fn wrapped(outer: &str, inner: TypeSyntax) -> TypeSyntax {
    TypeSyntax::Path {
        qualified: false,
        segments: vec![SegmentSyntax {
            ident: outer.to_string(),
            args: PathArgsSyntax::AngleBracketed(vec![GenericArgSyntax::Type(inner)]),
        }],
    }
}

fn phantom() -> TypeSyntax {
    TypeSyntax::Path {
        qualified: false,
        segments: vec![
            SegmentSyntax { ident: "std".to_string(), args: PathArgsSyntax::Bare },
            SegmentSyntax { ident: "marker".to_string(), args: PathArgsSyntax::Bare },
            SegmentSyntax {
                ident: "PhantomData".to_string(),
                args: PathArgsSyntax::AngleBracketed(vec![GenericArgSyntax::Type(plain("S"))]),
            },
        ],
    }
}

fn type_text(ty: &TypeSyntax) -> String {
    match ty {
        TypeSyntax::Path { qualified, segments } => {
            let mut out = if *qualified { "::".to_string() } else { String::new() };
            for (i, seg) in segments.iter().enumerate() {
                if i > 0 {
                    out.push_str("::");
                }
                out.push_str(&seg.ident);
                if let PathArgsSyntax::AngleBracketed(args) = &seg.args {
                    let inner: Vec<String> = args
                        .iter()
                        .map(|a| match a {
                            GenericArgSyntax::Type(t) => type_text(t),
                            GenericArgSyntax::Other => "'_".to_string(),
                        })
                        .collect();
                    out.push('<');
                    out.push_str(&inner.join(", "));
                    out.push('>');
                }
            }
            out
        }
        TypeSyntax::Other => "()".to_string(),
    }
}

fn option_inner_text(ty: &TypeSyntax) -> String {
    if let TypeSyntax::Path { segments, .. } = ty {
        if let Some(last) = segments.last() {
            if last.ident == "Option" {
                if let PathArgsSyntax::AngleBracketed(args) = &last.args {
                    if let Some(GenericArgSyntax::Type(inner)) = args.first() {
                        return type_text(inner);
                    }
                }
            }
        }
    }
    String::new()
}

fn wrapped_arg<'a>(ty: &'a TypeSyntax, wrapper: &str) -> Option<&'a TypeSyntax> {
    if let TypeSyntax::Path { segments, .. } = ty {
        if let Some(last) = segments.last() {
            if last.ident == wrapper {
                if let PathArgsSyntax::AngleBracketed(args) = &last.args {
                    if let Some(GenericArgSyntax::Type(inner)) = args.first() {
                        return Some(inner);
                    }
                }
            }
        }
    }
    None
}

fn target_text(ty: &TypeSyntax) -> String {
    let belongs = wrapped_arg(ty, "BelongsTo").or_else(|| wrapped_arg(ty, "Option").and_then(|i| wrapped_arg(i, "BelongsTo")));
    belongs.map(type_text).unwrap_or_default()
}

fn field(name: &str, ty: TypeSyntax) -> FieldSyntax {
    let ty_text = type_text(&ty);
    let inner_ty_text = option_inner_text(&ty);
    let target_ty_text = target_text(&ty);
    FieldSyntax { ident: name.to_string(), ty, ty_text, inner_ty_text, target_ty_text, attrs: Vec::new() }
}

fn keyed(name: &str, ty: TypeSyntax, key: &str) -> FieldSyntax {
    let ty_text = type_text(&ty);
    let inner_ty_text = option_inner_text(&ty);
    let target_ty_text = target_text(&ty);
    FieldSyntax {
        ident: name.to_string(),
        ty,
        ty_text,
        inner_ty_text,
        target_ty_text,
        attrs: vec![FieldAttrSyntax::Key(ExprSyntax::Path {
            qualified: false,
            segments: vec![SegmentSyntax { ident: key.to_string(), args: PathArgsSyntax::Bare }],
        })],
    }
}

fn derive_input(name: &str, attrs: Vec<ModelAttrSyntax>, fields: Vec<FieldSyntax>) -> DeriveInputSyntax {
    let mut all = fields;
    all.push(field("__seekwel_state", phantom()));
    DeriveInputSyntax {
        vis: "pub".to_string(),
        name: name.to_string(),
        attrs,
        generics: vec![GenericParamSyntax::Type],
        data: DataSyntax::NamedStruct(all),
    }
}

fn analyzed(input: DeriveInputSyntax) -> ModelSpec {
    match analyze_model(input) {
        Ok(spec) => spec,
        Err(message) => panic!("unexpected refusal: {message}"),
    }
}

fn refusal(input: DeriveInputSyntax) -> String {
    match analyze_model(input) {
        Ok(_) => panic!("expected a refusal"),
        Err(message) => message,
    }
}

fn stored(spec: &ModelSpec, index: usize) -> &seekwel::model_macro::analysis::StoredFieldSpec {
    match &spec.fields[index] {
        ModelFieldSpec::Stored(s) => s,
        ModelFieldSpec::HasMany(_) => panic!("expected a stored field"),
    }
}

#[test]
fn person_model_gets_default_names_and_columns() {
    let spec = analyzed(derive_input(
        "Person",
        Vec::new(),
        vec![
            field("id", plain("u64")),
            field("name", plain("String")),
            field("age", wrapped("Option", plain("u8"))),
        ],
    ));
    assert_eq!(spec.table_name, "person");
    assert_eq!(spec.builder_name, "PersonBuilder");
    assert_eq!(spec.columns_name, "PersonColumns");
    assert_eq!(spec.validator, "seekwel::model::NoValidation");
    assert_eq!(spec.state_field_name, "__seekwel_state");
    assert_eq!(spec.primary_key.field_name, "id");
    assert_eq!(spec.primary_key.query_variant, "Id");
    assert!(spec.primary_key.auto_increment);
    assert_eq!(spec.fields.len(), 2);
    let name = stored(&spec, 0);
    assert_eq!(name.storage_column_name, "name");
    assert_eq!(name.query_variant, "Name");
    assert!(!name.is_optional);
    let age = stored(&spec, 1);
    assert_eq!(age.storage_column_name, "age");
    assert!(age.is_optional);
    assert!(age.optional_inner_ty().is_some());
    assert!(age.association_target().is_none());
}

#[test]
fn belongs_to_fields_are_stored_as_field_id_columns() {
    let spec = analyzed(derive_input(
        "Pet",
        Vec::new(),
        vec![
            field("id", plain("u64")),
            field("owner", wrapped("BelongsTo", plain("Person"))),
            field("sitter", wrapped("Option", wrapped("BelongsTo", plain("Person")))),
        ],
    ));
    let owner = stored(&spec, 0);
    assert_eq!(owner.storage_column_name, "owner_id");
    assert_eq!(owner.query_variant, "OwnerId");
    assert_eq!(owner.association_handler, "__seekwel_has_many_handlers_for_owner_id");
    assert!(!owner.is_optional);
    assert!(owner.association_target().is_some());
    let sitter = stored(&spec, 1);
    assert_eq!(sitter.storage_column_name, "sitter_id");
    assert_eq!(sitter.query_variant, "SitterId");
    assert!(sitter.is_optional);
    assert!(sitter.association_target().is_some());
}

#[test]
fn explicit_keys_name_the_association_column() {
    let spec = analyzed(derive_input(
        "Pet",
        Vec::new(),
        vec![field("id", plain("u64")), keyed("owner", wrapped("BelongsTo", plain("Person")), "person_ref")],
    ));
    assert_eq!(stored(&spec, 0).storage_column_name, "person_ref");
    assert_eq!(stored(&spec, 0).query_variant, "PersonRef");
}

#[test]
fn has_many_fields_need_a_key() {
    let message = refusal(derive_input(
        "Person",
        Vec::new(),
        vec![field("id", plain("u64")), field("pets", wrapped("HasMany", plain("Pet")))],
    ));
    assert_eq!(message, "HasMany fields must specify the child foreign key with #[key = owner_id]");

    let spec = analyzed(derive_input(
        "Person",
        Vec::new(),
        vec![field("id", plain("u64")), keyed("pets", wrapped("HasMany", plain("Pet")), "owner_id")],
    ));
    match &spec.fields[0] {
        ModelFieldSpec::HasMany(h) => {
            assert_eq!(h.field_name, "pets");
            assert_eq!(h.association_handler, "__seekwel_has_many_handlers_for_owner_id");
            match &h.child_ty {
                TypeSyntax::Path { segments, .. } => assert_eq!(segments[0].ident, "Pet"),
                TypeSyntax::Other => panic!("expected the child path"),
            }
        }
        ModelFieldSpec::Stored(_) => panic!("expected a has-many field"),
    }
}

#[test]
fn unsupported_association_shapes_are_refused() {
    let optional_has_many = refusal(derive_input(
        "Person",
        Vec::new(),
        vec![field("id", plain("u64")), keyed("pets", wrapped("Option", wrapped("HasMany", plain("Pet"))), "owner_id")],
    ));
    assert_eq!(optional_has_many, "Option<HasMany<T>> is not supported");

    let optional_target = refusal(derive_input(
        "Pet",
        Vec::new(),
        vec![field("id", plain("u64")), field("owner", wrapped("BelongsTo", wrapped("Option", plain("Person"))))],
    ));
    assert_eq!(optional_target, "BelongsTo<Option<T>> is not supported; use Option<BelongsTo<T>> instead");

    let key_on_plain = refusal(derive_input(
        "Pet",
        Vec::new(),
        vec![field("id", plain("u64")), keyed("name", plain("String"), "label")],
    ));
    assert_eq!(key_on_plain, "#[key = column_name] can only be used on BelongsTo or HasMany association fields");
}

#[test]
fn struct_options_override_the_defaults() {
    let attrs = vec![ModelAttrSyntax::Seekwel(vec![
        ModelOptionSyntax::TableName("animals".to_string()),
        ModelOptionSyntax::PrimaryKey("pet_id".to_string()),
        ModelOptionSyntax::AutoIncrement(ExprSyntax::Bool(false)),
        ModelOptionSyntax::Validator("PetValidator".to_string()),
    ])];
    let spec = analyzed(derive_input("Pet", attrs, vec![field("pet_id", plain("u32")), field("name", plain("String"))]));
    assert_eq!(spec.table_name, "animals");
    assert_eq!(spec.primary_key.field_name, "pet_id");
    assert_eq!(spec.primary_key.query_variant, "PetId");
    assert!(!spec.primary_key.auto_increment);
    assert_eq!(spec.validator, "PetValidator");
    assert_eq!(spec.fields.len(), 1);
}

#[test]
fn struct_option_errors_name_the_option() {
    let duplicate = vec![ModelAttrSyntax::Seekwel(vec![
        ModelOptionSyntax::TableName("a".to_string()),
        ModelOptionSyntax::TableName("b".to_string()),
    ])];
    assert_eq!(
        refusal(derive_input("Pet", duplicate, vec![field("id", plain("u64"))])),
        "duplicate `table_name` option"
    );
    let not_bool = vec![ModelAttrSyntax::Seekwel(vec![ModelOptionSyntax::AutoIncrement(ExprSyntax::OtherLiteral)])];
    assert_eq!(
        refusal(derive_input("Pet", not_bool, vec![field("id", plain("u64"))])),
        "`auto_increment` must be a boolean literal"
    );
    let unknown = vec![ModelAttrSyntax::Other, ModelAttrSyntax::Seekwel(vec![ModelOptionSyntax::Unsupported])];
    assert_eq!(
        refusal(derive_input("Pet", unknown, vec![field("id", plain("u64"))])),
        "unsupported seekwel model option; expected `table_name`, `primary_key`, `auto_increment`, or `validator`"
    );
}

#[test]
fn primary_key_and_typestate_rules() {
    assert_eq!(
        refusal(derive_input("Pet", Vec::new(), vec![field("name", plain("String"))])),
        "Model structs must contain exactly one `id` field"
    );
    assert_eq!(
        refusal(derive_input("Pet", Vec::new(), vec![field("id", plain("String"))])),
        "Primary key fields must use a supported integer type: u64, u32, u16, u8, i64, i32, i16, or i8"
    );
    let mut no_generics = derive_input("Pet", Vec::new(), vec![field("id", plain("u64"))]);
    no_generics.generics = Vec::new();
    assert_eq!(
        refusal(no_generics),
        "Model derives require exactly one typestate type parameter; use #[seekwel::model] to generate it automatically"
    );
    let mut lifetime = derive_input("Pet", Vec::new(), vec![field("id", plain("u64"))]);
    lifetime.generics = vec![GenericParamSyntax::Lifetime];
    assert_eq!(refusal(lifetime), "Model derives only support a single typestate type parameter");
    let no_state = DeriveInputSyntax {
        vis: "pub".to_string(),
        name: "Pet".to_string(),
        attrs: Vec::new(),
        generics: vec![GenericParamSyntax::Type],
        data: DataSyntax::NamedStruct(vec![field("id", plain("u64"))]),
    };
    assert_eq!(
        refusal(no_state),
        "Model structs must contain exactly one __seekwel_state typestate field; use #[seekwel::model] to have it injected automatically"
    );
    let not_struct = DeriveInputSyntax {
        vis: "pub".to_string(),
        name: "Pet".to_string(),
        attrs: Vec::new(),
        generics: vec![GenericParamSyntax::Type],
        data: DataSyntax::NotStruct,
    };
    assert_eq!(refusal(not_struct), "Model can only be derived for structs");
}

#[test]
fn naming_rules() {
    assert_eq!(column_variant_name("owner_id"), "OwnerId");
    assert_eq!(
        column_words("__owner__id_"),
        vec![vec!['o', 'w', 'n', 'e', 'r'], vec!['i', 'd']]
    );
    assert!(column_words("___").is_empty());
    assert_eq!(column_variant_name("__owner__id_"), "OwnerId");
    assert_eq!(column_variant_name(""), "Column");
    assert_eq!(column_variant_name("___"), "Column");
    assert_eq!(column_variant_name("ß_x"), "SSX");
    assert_eq!(association_handler_name("Owner-Id!"), "__seekwel_has_many_handlers_for_owner_id");
    assert_eq!(association_handler_name("a--b"), "__seekwel_has_many_handlers_for_a_b");
    assert_eq!(association_handler_name("--"), "__seekwel_has_many_handlers_for_column");
    assert_eq!(ident_name("r#type"), "type");
    assert_eq!(ident_name("kind"), "kind");
    assert_eq!(lowercase_text("PetOwner"), "petowner");
    assert_eq!(lowercase_text("ÉCOLE"), "école");
}

#[test]
fn raw_identifiers_lose_their_prefix_in_derived_names() {
    let spec = analyzed(derive_input(
        "r#Match",
        Vec::new(),
        vec![field("id", plain("u64")), field("r#type", plain("String"))],
    ));
    assert_eq!(spec.builder_name, "MatchBuilder");
    assert_eq!(spec.table_name, "r#match");
    assert_eq!(stored(&spec, 0).field_name, "type");
    assert_eq!(stored(&spec, 0).storage_column_name, "type");
}

fn person_item() -> ItemStructSyntax {
    ItemStructSyntax {
        vis: "pub".to_string(),
        name: "Person".to_string(),
        attrs: Vec::new(),
        generics: Vec::new(),
        fields: Some(vec![field("id", plain("u64")), field("name", plain("String"))]),
    }
}

#[test]
fn model_attribute_injects_the_typestate_and_forwards_options() {
    let args = vec![ModelArgSyntax::TableName("people".to_string()), ModelArgSyntax::AutoIncrement(false)];
    let expanded = match expand_model_attribute(&args, person_item()) {
        Ok(out) => out,
        Err(message) => panic!("unexpected refusal: {message}"),
    };
    assert_eq!(expanded.generics, vec![GenericParamSyntax::Type]);
    match &expanded.data {
        DataSyntax::NamedStruct(fields) => {
            assert_eq!(fields.len(), 3);
            assert_eq!(fields[2].ident, "__seekwel_state");
        }
        _ => panic!("expected named fields"),
    }
    assert_eq!(expanded.attrs.len(), 2);
    let spec = analyzed(expanded);
    assert_eq!(spec.table_name, "people");
    assert!(!spec.primary_key.auto_increment);
    assert_eq!(spec.fields.len(), 1);
}

#[test]
fn model_attribute_refusals() {
    let mut generic = person_item();
    generic.generics = vec![GenericParamSyntax::Type];
    assert_eq!(
        expand_model_attribute(&Vec::new(), generic).err().unwrap(),
        "seekwel::model only supports non-generic structs; the macro injects the typestate generic for you"
    );
    let mut tuple = person_item();
    tuple.fields = None;
    assert_eq!(
        expand_model_attribute(&Vec::new(), tuple).err().unwrap(),
        "seekwel::model only supports structs with named fields"
    );
    let mut reserved = person_item();
    reserved.fields = Some(vec![field("id", plain("u64")), field("__seekwel_state", phantom())]);
    assert_eq!(
        expand_model_attribute(&Vec::new(), reserved).err().unwrap(),
        "field name __seekwel_state is reserved by seekwel::model"
    );
    let duplicate = vec![ModelArgSyntax::PrimaryKey("a".to_string()), ModelArgSyntax::PrimaryKey("b".to_string())];
    assert_eq!(
        expand_model_attribute(&duplicate, person_item()).err().unwrap(),
        "duplicate `primary_key` option"
    );
    assert_eq!(
        expand_model_attribute(&vec![ModelArgSyntax::Unsupported], person_item()).err().unwrap(),
        "unsupported seekwel::model option; expected `table_name`, `primary_key`, `auto_increment`, or `validator`"
    );
}

#[test]
fn generated_item_names() {
    let names = generated_names("PetOwner");
    assert_eq!(names.params_name, "PetOwnerParams");
    assert_eq!(names.allowed_params_name, "AllowedPetOwnerParams");
    assert_eq!(names.registry_fn_name, "__seekwel_registry_table_for_petowner");
    assert_eq!(names.registry_entry_name, "__SEEKWEL_REGISTRY_ENTRY_FOR_PETOWNER");
}

#[test]
fn insert_and_allow_all_columns_follow_the_key_generation() {
    let generated = analyzed(derive_input(
        "Pet",
        Vec::new(),
        vec![
            field("id", plain("u64")),
            field("name", plain("String")),
            keyed("pets", wrapped("HasMany", plain("Toy")), "pet_id"),
            field("owner", wrapped("BelongsTo", plain("Person"))),
        ],
    ));
    assert_eq!(insert_column_names(&generated), vec!["name".to_string(), "owner_id".to_string()]);
    assert_eq!(allow_all_variants(&generated), vec!["Name".to_string(), "OwnerId".to_string()]);
    assert_eq!(params_field_name(stored(&generated, 0)), "name");
    assert_eq!(params_field_name(stored(&generated, 2)), "owner_id");

    let attrs = vec![ModelAttrSyntax::Seekwel(vec![
        ModelOptionSyntax::PrimaryKey("code".to_string()),
        ModelOptionSyntax::AutoIncrement(ExprSyntax::Bool(false)),
    ])];
    let assigned = analyzed(derive_input("Pet", attrs, vec![field("code", plain("i32")), field("name", plain("String"))]));
    assert_eq!(insert_column_names(&assigned), vec!["code".to_string(), "name".to_string()]);
    assert_eq!(allow_all_variants(&assigned), vec!["Code".to_string(), "Name".to_string()]);
}

#[test]
fn generated_items_follow_the_stored_fields() {
    let spec = analyzed(derive_input(
        "Person",
        Vec::new(),
        vec![
            field("id", plain("u64")),
            field("name", plain("String")),
            keyed("pets", wrapped("HasMany", plain("Pet")), "owner_id"),
            field("owner", wrapped("BelongsTo", plain("Person"))),
        ],
    ));
    let g = generated_model(&spec);
    assert_eq!(g.table_name, "person");
    assert_eq!(g.primary_key_name, "id");
    assert!(g.auto_increment);
    assert_eq!(g.columns, vec!["name".to_string(), "owner_id".to_string()]);
    assert_eq!(g.insert_columns, g.columns);
    assert_eq!(g.param_fields, vec!["name".to_string(), "owner".to_string()]);
    assert_eq!(g.insert_param_fields, g.param_fields);
    assert_eq!(g.row_fields, vec!["id".to_string(), "name".to_string(), "owner".to_string()]);
    assert_eq!(g.bound_has_many, vec!["pets".to_string()]);
}

#[test]
fn generated_insert_lists_start_with_a_manual_key() {
    let spec = analyzed(derive_input(
        "Tag",
        vec![ModelAttrSyntax::Seekwel(vec![
            ModelOptionSyntax::PrimaryKey("code".to_string()),
            ModelOptionSyntax::AutoIncrement(ExprSyntax::Bool(false)),
        ])],
        vec![field("code", plain("i64")), field("label", plain("String"))],
    ));
    let g = generated_model(&spec);
    assert!(!g.auto_increment);
    assert_eq!(g.columns, vec!["label".to_string()]);
    assert_eq!(g.insert_columns, vec!["code".to_string(), "label".to_string()]);
    assert_eq!(g.insert_param_fields, vec!["code".to_string(), "label".to_string()]);
    assert_eq!(g.row_fields, vec!["code".to_string(), "label".to_string()]);
}

#[test]
fn model_source_spells_out_the_generated_impl() {
    let spec = analyzed(derive_input(
        "Person",
        Vec::new(),
        vec![field("id", plain("u64")), field("name", plain("String"))],
    ));
    let expected = [
        "impl<S> seekwel::model::Model for Person<S> {\n",
        "    type Column = PersonColumns;\n",
        "    fn table_name() -> &'static str {\n",
        "        \"person\"\n",
        "    }\n",
        "    fn primary_key() -> seekwel::model::PrimaryKeyDef {\n",
        "        seekwel::model::PrimaryKeyDef { name: \"id\", sql_type: <u64 as seekwel::model::SqlField>::SQL_TYPE, auto_increment: true }\n",
        "    }\n",
        "    fn columns() -> &'static [seekwel::model::ColumnDef] {\n",
        "        const COLUMNS: &[seekwel::model::ColumnDef] = &[seekwel::model::column::<String>(\"name\")];\n",
        "        COLUMNS\n",
        "    }\n",
        "    fn insert_columns() -> &'static [seekwel::model::ColumnDef] {\n",
        "        const INSERT_COLUMNS: &[seekwel::model::ColumnDef] = &[seekwel::model::column::<String>(\"name\")];\n",
        "        INSERT_COLUMNS\n",
        "    }\n",
        "    fn params(&self) -> Vec<rusqlite::types::Value> {\n",
        "        vec![<String as seekwel::model::SqlField>::to_sql_value(&self.name)]\n",
        "    }\n",
        "    fn insert_params(&self) -> Vec<rusqlite::types::Value> {\n",
        "        vec![<String as seekwel::model::SqlField>::to_sql_value(&self.name)]\n",
        "    }\n",
        "}\n",
        "\n",
        "#[derive(Debug, Clone, Copy, PartialEq, Eq)]\n",
        "pub enum PersonColumns {\n",
        "    Id, Name\n",
        "}\n",
        "\n",
        "impl seekwel::model::Column for PersonColumns {\n",
        "    fn as_str(self) -> &'static str {\n",
        "        match self {\n",
        "            PersonColumns::Id => \"id\", PersonColumns::Name => \"name\"\n",
        "        }\n",
        "    }\n",
        "}\n",
        "\n",
        "impl PersonColumns {\n",
        "    pub const __seekwel_has_many_handlers_for_name: u8 = 0;\n",
        "    pub fn asc(self) -> seekwel::Order {\n",
        "        seekwel::Order::asc(self)\n",
        "    }\n",
        "    pub fn desc(self) -> seekwel::Order {\n",
        "        seekwel::Order::desc(self)\n",
        "    }\n",
        "}\n",
        "\n",
        "impl seekwel::model::ModelRecord for Person<seekwel::NewRecord> {\n",
        "    fn persisted_id(&self) -> Option<u64> {\n",
        "        None\n",
        "    }\n",
        "    fn persisted_primary_key_value(&self) -> Option<rusqlite::types::Value> {\n",
        "        None\n",
        "    }\n",
        "}\n",
        "\n",
        "impl seekwel::model::ModelRecord for Person<seekwel::Persisted> {\n",
        "    fn persisted_id(&self) -> Option<u64> {\n",
        "        Some(<u64 as seekwel::model::PrimaryKeyField>::to_association_id(&self.id).expect(\"seekwel persisted model primary key should convert to a non-negative u64 association id\"))\n",
        "    }\n",
        "    fn persisted_primary_key_value(&self) -> Option<rusqlite::types::Value> {\n",
        "        Some(<u64 as seekwel::model::SqlField>::to_sql_value(&self.id))\n",
        "    }\n",
        "}\n",
        "\n",
        "impl seekwel::model::ModelRecord for Person<seekwel::Invalid<seekwel::NewRecord, PersonColumns>> {\n",
        "    fn persisted_id(&self) -> Option<u64> {\n",
        "        None\n",
        "    }\n",
        "    fn persisted_primary_key_value(&self) -> Option<rusqlite::types::Value> {\n",
        "        None\n",
        "    }\n",
        "}\n",
        "\n",
        "impl seekwel::model::ModelRecord for Person<seekwel::Invalid<seekwel::Persisted, PersonColumns>> {\n",
        "    fn persisted_id(&self) -> Option<u64> {\n",
        "        Some(<u64 as seekwel::model::PrimaryKeyField>::to_association_id(&self.id).expect(\"seekwel invalid persisted model primary key should convert to a non-negative u64 association id\"))\n",
        "    }\n",
        "    fn persisted_primary_key_value(&self) -> Option<rusqlite::types::Value> {\n",
        "        Some(<u64 as seekwel::model::SqlField>::to_sql_value(&self.id))\n",
        "    }\n",
        "}\n",
        "\n",
        "impl<S> seekwel::model::InvalidModel for Person<seekwel::Invalid<S, PersonColumns>> {\n",
        "    type PreviousState = S;\n",
        "    fn errors(&self) -> &seekwel::Errors<Self::Column> {\n",
        "        self.__seekwel_state.errors()\n",
        "    }\n",
        "}\n",
        "\n",
        "impl seekwel::model::PersistedModel for Person<seekwel::Persisted> {\n",
        "    fn id(&self) -> u64 {\n",
        "        <u64 as seekwel::model::PrimaryKeyField>::to_association_id(&self.id).expect(\"seekwel persisted model primary key should convert to a non-negative u64 association id\")\n",
        "    }\n",
        "    fn primary_key_value(&self) -> rusqlite::types::Value {\n",
        "        <u64 as seekwel::model::SqlField>::to_sql_value(&self.id)\n",
        "    }\n",
        "    fn from_row(row: &rusqlite::Row) -> rusqlite::Result<Self> {\n",
        "        let id = <u64 as seekwel::model::SqlField>::from_sql_row(row, 0)?;\n",
        "        let __seekwel_association_id = <u64 as seekwel::model::PrimaryKeyField>::to_association_id(&id).map_err(|error| rusqlite::Error::ToSqlConversionFailure(Box::new(error)))?;\n",
        "        Ok(Self { id, name: <String as seekwel::model::SqlField>::from_sql_row(row, 1)?, __seekwel_state: seekwel::Persisted })\n",
        "    }\n",
        "    type Invalid = Person<seekwel::Invalid<seekwel::Persisted, PersonColumns>>;\n",
        "    fn validation_errors(&self) -> seekwel::Errors<Self::Column> {\n",
        "        let mut errors = seekwel::Errors::new();\n",
        "        <seekwel::model::NoValidation as seekwel::model::Validator<Self>>::validate(self, &mut errors);\n",
        "        errors\n",
        "    }\n",
        "    fn to_invalid(&self, errors: seekwel::Errors<Self::Column>) -> Self::Invalid {\n",
        "        Person { id: self.id.clone(), name: self.name.clone(), __seekwel_state: seekwel::Invalid::new(seekwel::Persisted, errors) }\n",
        "    }\n",
        "}\n",
        "\n",
        "impl seekwel::model::NewModel for Person<seekwel::NewRecord> {\n",
        "    type Persisted = Person<seekwel::Persisted>;\n",
        "    type Invalid = Person<seekwel::Invalid<seekwel::NewRecord, PersonColumns>>;\n",
        "    fn validation_errors(&self) -> seekwel::Errors<Self::Column> {\n",
        "        let mut errors = seekwel::Errors::new();\n",
        "        <seekwel::model::NoValidation as seekwel::model::Validator<Self>>::validate(self, &mut errors);\n",
        "        errors\n",
        "    }\n",
        "    fn into_invalid(self, errors: seekwel::Errors<Self::Column>) -> Self::Invalid {\n",
        "        Person { id: self.id, name: self.name, __seekwel_state: seekwel::Invalid::new(seekwel::NewRecord, errors) }\n",
        "    }\n",
        "    fn into_persisted(self, id: u64) -> Result<Self::Persisted, seekwel::error::Error> {\n",
        "        let __seekwel_primary_key: u64 = <u64 as seekwel::model::PrimaryKeyField>::from_generated_id(id)?;\n",
        "        let __seekwel_association_id = <u64 as seekwel::model::PrimaryKeyField>::to_association_id(&__seekwel_primary_key)?;\n",
        "        Ok(Person { id: __seekwel_primary_key, name: self.name, __seekwel_state: seekwel::Persisted })\n",
        "    }\n",
        "}\n",
        "\n",
        "impl Person<seekwel::Persisted> {\n",
        "    pub fn builder() -> PersonBuilder {\n",
        "        PersonBuilder { name: Default::default() }\n",
        "    }\n",
        "}\n",
        "\n",
        "pub struct PersonBuilder {\n",
        "    name: seekwel::model::builder::Required<String>\n",
        "}\n",
        "\n",
        "impl PersonBuilder {\n",
        "    pub fn name(mut self, value: impl Into<String>) -> Self {\n",
        "        self.name.set(value);\n",
        "        self\n",
        "    }\n",
        "    pub fn build(self) -> Result<Person<seekwel::NewRecord>, seekwel::error::Error> {\n",
        "        let name = self.name.finish(\"name\")?;\n",
        "        Ok(Person { id: Default::default(), name, __seekwel_state: seekwel::NewRecord })\n",
        "    }\n",
        "    pub fn create(self) -> Result<Person<seekwel::Persisted>, seekwel::model::SaveError<<Person<seekwel::NewRecord> as seekwel::model::NewModel>::Invalid>> {\n",
        "        <Person<seekwel::NewRecord> as seekwel::model::NewModel>::save(self.build().map_err(seekwel::model::SaveError::Error)?)\n",
        "    }\n",
        "}\n",
        "\n",
        "impl Person<seekwel::Persisted> {\n",
        "}\n",
        "\n",
        "#[cfg(any(target_os = \"linux\", target_os = \"android\", target_os = \"freebsd\", target_os = \"dragonfly\", target_os = \"netbsd\", target_os = \"openbsd\"))]\n",
        "#[doc(hidden)]\n",
        "#[allow(non_snake_case)]\n",
        "fn __seekwel_registry_table_for_person() -> Option<seekwel::schema::TableDef> {\n",
        "    Some(seekwel::schema::__private::table_for_model::<Person<seekwel::Persisted>>())\n",
        "}\n",
        "\n",
        "#[cfg(any(target_os = \"linux\", target_os = \"android\", target_os = \"freebsd\", target_os = \"dragonfly\", target_os = \"netbsd\", target_os = \"openbsd\"))]\n",
        "#[doc(hidden)]\n",
        "#[used]\n",
        "#[allow(non_upper_case_globals)]\n",
        "#[unsafe(link_section = \"seekwel_schema_registry\")]\n",
        "static __SEEKWEL_REGISTRY_ENTRY_FOR_PERSON: seekwel::schema::__private::RegistryEntry =\n",
        "    seekwel::schema::__private::RegistryEntry::new(__seekwel_registry_table_for_person);\n",
    ]
    .concat();
    assert_eq!(model_source(&spec), expected);
}

#[test]
fn model_source_puts_a_manual_key_first_in_insert_lists() {
    let spec = analyzed(derive_input(
        "Tag",
        vec![ModelAttrSyntax::Seekwel(vec![
            ModelOptionSyntax::PrimaryKey("code".to_string()),
            ModelOptionSyntax::AutoIncrement(ExprSyntax::Bool(false)),
        ])],
        vec![field("code", plain("i64")), field("label", wrapped("Option", plain("String")))],
    ));
    let source = model_source(&spec);
    assert!(source.contains("auto_increment: false"));
    assert!(source.contains(
        "    fn insert_params(&self) -> Vec<rusqlite::types::Value> {\n        vec![<i64 as seekwel::model::SqlField>::to_sql_value(&self.code), <Option<String> as seekwel::model::SqlField>::to_sql_value(&self.label)]\n"
    ));
    assert!(source.contains(
        "    fn params(&self) -> Vec<rusqlite::types::Value> {\n        vec![<Option<String> as seekwel::model::SqlField>::to_sql_value(&self.label)]\n"
    ));
    assert!(source.contains("TagColumns::Code => \"code\", TagColumns::Label => \"label\""));
}

fn plain_derive(name: &str, fields: Vec<FieldSyntax>) -> DeriveInputSyntax {
    DeriveInputSyntax {
        vis: "pub".to_string(),
        name: name.to_string(),
        attrs: Vec::new(),
        generics: vec![GenericParamSyntax::Type],
        data: DataSyntax::NamedStruct(fields),
    }
}

#[test]
fn plain_derive_reads_columns_from_field_types() {
    let input = plain_derive(
        "Person",
        vec![
            field("id", plain("u64")),
            field("name", plain("String")),
            field("age", wrapped("Option", plain("u8"))),
            field("visits", plain("u64")),
            field("score", wrapped("Option", wrapped("Option", plain("f64")))),
            field("_state", phantom()),
        ],
    );
    let derived = match analyze_derive(&input) {
        Ok(d) => d,
        Err(message) => panic!("unexpected refusal: {message}"),
    };
    assert_eq!(derived.name, "Person");
    assert_eq!(derived.table_name, "person");
    assert_eq!(derived.builder_name, "PersonBuilder");
    assert_eq!(derived.state_field_name, "_state");
    let shapes: Vec<(String, String, bool, bool)> = derived
        .columns
        .iter()
        .map(|c| (c.name.clone(), c.sql_type.clone(), c.nullable, c.needs_i64_cast))
        .collect();
    assert_eq!(
        shapes,
        vec![
            ("name".to_string(), "TEXT".to_string(), false, false),
            ("age".to_string(), "INTEGER".to_string(), true, false),
            ("visits".to_string(), "INTEGER".to_string(), false, true),
            ("score".to_string(), "REAL".to_string(), true, false),
        ]
    );
    assert_eq!(sql_type_name(&plain("bool")), "INTEGER");
    assert_eq!(sql_type_name(&plain("Vec")), "TEXT");
    assert_eq!(sql_type_name(&TypeSyntax::Other), "TEXT");
}

#[test]
fn plain_derive_refuses_what_breaks_its_rules() {
    let refused = |input: DeriveInputSyntax| match analyze_derive(&input) {
        Ok(_) => panic!("expected a refusal"),
        Err(message) => message,
    };
    assert_eq!(
        refused(plain_derive("Person", vec![field("id", plain("u32")), field("_state", phantom())])),
        "The `id` field must have type `u64`"
    );
    assert_eq!(
        refused(plain_derive("Person", vec![field("name", plain("String")), field("_state", phantom())])),
        "Model structs must contain exactly one `id` field"
    );
    assert_eq!(
        refused(plain_derive("Person", vec![field("id", plain("u64"))])),
        "Model structs must contain exactly one PhantomData typestate field; use #[seekwel::model] to have it injected automatically"
    );
    let mut no_params = plain_derive("Person", vec![field("id", plain("u64")), field("_state", phantom())]);
    no_params.generics = Vec::new();
    assert_eq!(
        refused(no_params),
        "Model derives require exactly one typestate type parameter; use #[seekwel::model] to generate it automatically"
    );
    let mut tuple = plain_derive("Person", Vec::new());
    tuple.data = DataSyntax::OtherStruct;
    assert_eq!(refused(tuple), "Model only supports structs with named fields");
    let mut not_struct = plain_derive("Person", Vec::new());
    not_struct.data = DataSyntax::NotStruct;
    assert_eq!(refused(not_struct), "Model can only be derived for structs");
}

#[test]
fn persisted_impl_reads_fields_by_row_index_and_binds_has_many() {
    let spec = analyzed(derive_input(
        "Person",
        vec![ModelAttrSyntax::Seekwel(vec![ModelOptionSyntax::Validator("PersonRules".to_string())])],
        vec![
            field("id", plain("u64")),
            field("name", plain("String")),
            keyed("pets", wrapped("HasMany", plain("Pet")), "owner_id"),
            field("age", wrapped("Option", plain("u8"))),
        ],
    ));
    let source = persisted_source(&spec);
    assert!(source.contains(
        "Ok(Self { id, name: <String as seekwel::model::SqlField>::from_sql_row(row, 1)?, age: <Option<u8> as seekwel::model::SqlField>::from_sql_row(row, 2)?, pets: seekwel::HasMany::new_bound(__seekwel_association_id), __seekwel_state: seekwel::Persisted })"
    ));
    assert!(source.contains("<PersonRules as seekwel::model::Validator<Self>>::validate(self, &mut errors);"));
    assert!(source.contains(
        "Person { id: self.id.clone(), name: self.name.clone(), pets: self.pets.clone(), age: self.age.clone(), __seekwel_state: seekwel::Invalid::new(seekwel::Persisted, errors) }"
    ));
}

#[test]
fn new_model_impl_keeps_a_manual_key_and_binds_has_many() {
    let spec = analyzed(derive_input(
        "Tag",
        vec![ModelAttrSyntax::Seekwel(vec![
            ModelOptionSyntax::PrimaryKey("code".to_string()),
            ModelOptionSyntax::AutoIncrement(ExprSyntax::Bool(false)),
        ])],
        vec![
            field("code", plain("i64")),
            keyed("posts", wrapped("HasMany", plain("Post")), "tag_id"),
            field("label", plain("String")),
        ],
    ));
    let source = new_model_source(&spec);
    assert!(source.contains("let __seekwel_primary_key: i64 = self.code;"));
    assert!(source.contains(
        "Ok(Tag { code: __seekwel_primary_key, posts: seekwel::HasMany::new_bound(__seekwel_association_id), label: self.label, __seekwel_state: seekwel::Persisted })"
    ));
    assert!(source.contains(
        "Tag { code: self.code, posts: self.posts, label: self.label, __seekwel_state: seekwel::Invalid::new(seekwel::NewRecord, errors) }"
    ));
    let registry = registry_source("BlogPost");
    assert!(registry.contains("fn __seekwel_registry_table_for_blogpost() -> Option<seekwel::schema::TableDef>"));
    assert!(registry.contains("static __SEEKWEL_REGISTRY_ENTRY_FOR_BLOGPOST: "));
}

#[test]
fn columns_impl_numbers_association_keys_in_field_order() {
    let spec = analyzed(derive_input(
        "Pet",
        Vec::new(),
        vec![
            field("id", plain("u64")),
            field("name", plain("String")),
            field("owner", wrapped("BelongsTo", plain("Person"))),
        ],
    ));
    let source = columns_impl_source(&spec);
    assert!(source.starts_with(
        "impl PetColumns {\n    pub const __seekwel_has_many_handlers_for_name: u8 = 0;\n    pub const __seekwel_has_many_handlers_for_owner_id: u8 = 1;\n"
    ));
    let records = records_source(&spec);
    assert!(records.contains("impl<S> seekwel::model::InvalidModel for Pet<seekwel::Invalid<S, PetColumns>>"));
}

#[test]
fn builder_setters_follow_each_field_kind() {
    let spec = analyzed(derive_input(
        "Pet",
        vec![ModelAttrSyntax::Seekwel(vec![
            ModelOptionSyntax::PrimaryKey("code".to_string()),
            ModelOptionSyntax::AutoIncrement(ExprSyntax::Bool(false)),
        ])],
        vec![
            field("code", plain("i64")),
            field("name", plain("String")),
            field("age", wrapped("Option", plain("u8"))),
            field("sitter", wrapped("Option", wrapped("BelongsTo", plain("Person")))),
            keyed("toys", wrapped("HasMany", plain("Toy")), "pet_id"),
        ],
    ));
    let source = builder_source(&spec);
    assert!(source.contains(
        "PetBuilder { code: Default::default(), name: Default::default(), age: Default::default(), sitter: Default::default() }"
    ));
    assert!(source.contains(
        "pub struct PetBuilder {\n    code: seekwel::model::builder::Required<i64>,\n    name: seekwel::model::builder::Required<String>,\n    age: seekwel::model::builder::Optional<u8>,\n    sitter: seekwel::model::builder::Optional<BelongsTo<Person>>\n}"
    ));
    assert!(source.contains("    pub fn age(mut self, value: Option<u8>) -> Self {\n"));
    assert!(source.contains(
        "    pub fn sitter<V>(mut self, value: Option<V>) -> Self\n    where\n        V: Into<BelongsTo<Person>>,\n    {\n        self.sitter.set(value.map(Into::into));\n"
    ));
    assert!(source.contains("        let code = self.code.finish(\"code\")?;\n"));
    assert!(source.contains("        let age = self.age.finish();\n"));
    assert!(source.contains(
        "Ok(Pet { code, name, age, sitter, toys: seekwel::HasMany::new_unbound(), __seekwel_state: seekwel::NewRecord })"
    ));
}

#[test]
fn params_items_key_associations_by_column() {
    let spec = analyzed(derive_input(
        "Person",
        Vec::new(),
        vec![
            field("id", plain("u64")),
            field("name", plain("String")),
            field("age", wrapped("Option", plain("u8"))),
            field("owner", wrapped("BelongsTo", plain("Person"))),
        ],
    ));
    let plain_params = params_source(&spec, false);
    assert!(plain_params.starts_with(
        "#[derive(Clone, Default)]\npub struct PersonParams {\n    name: seekwel::model::params::Param<String>,\n    age: seekwel::model::params::Param<Option<u8>>,\n    owner_id: seekwel::model::params::Param<BelongsTo<Person>>,\n}\n"
    ));
    assert!(plain_params.contains(
        "AllowedPersonParams { params: self, allowed: vec![PersonColumns::Name, PersonColumns::Age, PersonColumns::OwnerId] }"
    ));
    assert!(plain_params.contains(
        "        if __seekwel_is_allowed(PersonColumns::Id) {\n            return Err(seekwel::error::Error::InvalidParams(format!(\"column `{}` is not assignable from params\", \"id\")));\n        }\n"
    ));
    assert!(plain_params.contains(
        "        let name = if __seekwel_is_allowed(PersonColumns::Name) {\n            __seekwel_params.name.into_value().ok_or_else(|| seekwel::error::Error::MissingField(\"name\".to_string()))?\n        } else {\n            return Err(seekwel::error::Error::MissingField(\"name\".to_string()));\n        };\n"
    ));
    assert!(plain_params.contains(
        "        let age = if __seekwel_is_allowed(PersonColumns::Age) {\n            __seekwel_params.age.into_value().unwrap_or(None)\n        } else {\n            None\n        };\n"
    ));
    assert!(plain_params.contains(
        "            if let Some(__seekwel_value) = __seekwel_params.owner_id.into_value() {\n                self.owner = __seekwel_value;\n"
    ));
    assert!(plain_params.contains("is not assignable by update params"));
    let serde_params = params_source(&spec, true);
    assert!(serde_params.starts_with(
        "#[derive(Clone, Default, seekwel::__private::serde::Deserialize)]\npub struct PersonParams {\n    #[serde(default)] name: "
    ));
}

#[test]
fn belongs_to_fields_get_accessors_and_has_many_impls() {
    let spec = analyzed(derive_input(
        "Pet",
        Vec::new(),
        vec![
            field("id", plain("u64")),
            field("name", plain("String")),
            field("owner", wrapped("BelongsTo", plain("Person"))),
            field("sitter", wrapped("Option", wrapped("BelongsTo", plain("Person")))),
        ],
    ));
    let source = associations_source(&spec);
    assert!(source.contains(
        "    pub fn owner(&self) -> Result<Person, seekwel::error::Error>\n    where\n        Person: seekwel::model::PersistedModel + Clone,\n    {\n        self.owner.load()\n    }\n"
    ));
    assert!(source.contains(
        "    pub fn sitter(&self) -> Result<Option<Person>, seekwel::error::Error>\n"
    ));
    assert!(!source.contains("pub fn name("));
    assert!(source.contains(
        "impl seekwel::model::HasManyAssociation<{ PetColumns::__seekwel_has_many_handlers_for_owner_id }> for Pet<seekwel::Persisted> {\n    type Parent = Person;\n    type Builder = PetBuilder;\n"
    ));
    assert!(source.contains("seekwel::model::Query::new(PetColumns::OwnerId, seekwel::Comparison::Eq(parent_id))"));
    assert!(source.contains("Ok(builder.owner(parent_id).create()?)"));
    assert!(source.contains("Ok(builder.sitter(Some(parent_id)).create()?)"));
}

#[test]
fn generated_items_share_the_model_visibility() {
    let mut input = derive_input("Person", Vec::new(), vec![field("id", plain("u64")), field("name", plain("String"))]);
    input.vis = String::new();
    let private = model_source(&analyzed(input));
    assert!(private.contains("\nenum PersonColumns {\n"));
    assert!(private.contains("\nstruct PersonBuilder {\n"));
    let mut input = derive_input("Person", Vec::new(), vec![field("id", plain("u64")), field("name", plain("String"))]);
    input.vis = "pub(crate)".to_string();
    let spec = analyzed(input);
    assert!(model_source(&spec).contains("\npub(crate) enum PersonColumns {\n"));
    assert!(params_source(&spec, false).contains("\npub(crate) struct AllowedPersonParams {\n"));
}

#[test]
fn plain_derive_source_spells_out_the_generated_code() {
    let input = plain_derive(
        "Person",
        vec![
            field("id", plain("u64")),
            field("name", plain("String")),
            field("age", wrapped("Option", plain("u8"))),
            field("_state", phantom()),
        ],
    );
    let derived = match analyze_derive(&input) {
        Ok(d) => d,
        Err(message) => panic!("unexpected refusal: {message}"),
    };
    let expected = [
        "impl<S> seekwel::model::Model for Person<S> {\n",
        "    fn table_name() -> &'static str {\n",
        "        \"person\"\n",
        "    }\n",
        "    fn columns() -> &'static [seekwel::model::ColumnDef] {\n",
        "        &[seekwel::model::ColumnDef { name: \"name\", sql_type: \"TEXT\", nullable: false }, seekwel::model::ColumnDef { name: \"age\", sql_type: \"INTEGER\", nullable: true }]\n",
        "    }\n",
        "    fn params(&self) -> Vec<rusqlite::types::Value> {\n",
        "        vec![rusqlite::types::Value::Text(self.name.clone()), match self.age {\n",
        "    Some(v) => rusqlite::types::Value::Integer(v as i64),\n",
        "    None => rusqlite::types::Value::Null,\n",
        "}]\n",
        "    }\n",
        "}\n",
        "\n",
        "impl seekwel::model::PersistedModel for Person<seekwel::Persisted> {\n",
        "    fn id(&self) -> u64 {\n",
        "        self.id\n",
        "    }\n",
        "    fn from_row(row: &rusqlite::Row) -> rusqlite::Result<Self> {\n",
        "        Ok(Self { id: row.get::<_, i64>(0)? as u64, name: row.get(1)?, age: row.get(2)?, _state: std::marker::PhantomData })\n",
        "    }\n",
        "}\n",
        "\n",
        "impl Person<seekwel::Persisted> {\n",
        "    pub fn builder() -> PersonBuilder {\n",
        "        PersonBuilder { name: None, age: None }\n",
        "    }\n",
        "    pub fn create_table() -> Result<(), seekwel::error::Error> {\n",
        "        <Self as seekwel::model::Model>::create_table()\n",
        "    }\n",
        "    pub fn reload(&mut self) -> Result<(), seekwel::error::Error> {\n",
        "        <Self as seekwel::model::PersistedModel>::reload(self)\n",
        "    }\n",
        "}\n",
        "\n",
        "impl Person<seekwel::NewRecord> {\n",
        "    pub fn save(self) -> Result<Person<seekwel::Persisted>, seekwel::error::Error> {\n",
        "        let id = seekwel::model::insert(&self)?;\n",
        "        Ok(Person { id, name: self.name, age: self.age, _state: std::marker::PhantomData })\n",
        "    }\n",
        "}\n",
        "\n",
        "pub struct PersonBuilder {\n",
        "    name: Option<String>,\n",
        "    age: Option<Option<u8>>\n",
        "}\n",
        "\n",
        "impl PersonBuilder {\n",
        "    pub fn name(mut self, value: impl Into<String>) -> Self {\n",
        "        self.name = Some(value.into());\n",
        "        self\n",
        "    }\n",
        "    pub fn age(mut self, value: Option<u8>) -> Self {\n",
        "        self.age = Some(value);\n",
        "        self\n",
        "    }\n",
        "    pub fn build(self) -> Result<Person<seekwel::NewRecord>, seekwel::error::Error> {\n",
        "        let name = self.name.ok_or_else(|| seekwel::error::Error::MissingField(\"name\".to_string()))?;\n",
        "        let age = self.age.unwrap_or(None);\n",
        "        Ok(Person { id: 0, name, age, _state: std::marker::PhantomData })\n",
        "    }\n",
        "    pub fn create(self) -> Result<Person<seekwel::Persisted>, seekwel::error::Error> {\n",
        "        self.build()?.save()\n",
        "    }\n",
        "}\n",
    ]
    .concat();
    assert_eq!(derived_source(&derived), expected);
}

#[test]
fn plain_derive_values_convert_by_type() {
    assert_eq!(value_expr(&plain("f64"), "self.x"), "rusqlite::types::Value::Real(self.x as f64)");
    assert_eq!(value_expr(&plain("bool"), "self.b"), "rusqlite::types::Value::Integer(self.b as i64)");
    assert_eq!(value_expr(&plain("Uuid"), "self.u"), "rusqlite::types::Value::Text(self.u.to_string())");
    assert_eq!(
        value_expr(&wrapped("Option", wrapped("Option", plain("String"))), "self.s"),
        "match self.s {\n    Some(v) => match v {\n    Some(v) => rusqlite::types::Value::Text(v.clone()),\n    None => rusqlite::types::Value::Null,\n},\n    None => rusqlite::types::Value::Null,\n}"
    );
}

#[test]
fn plain_model_attribute_adds_the_typestate_and_the_derive() {
    assert_eq!(
        expand_plain_model_attribute(true, person_item()).err().unwrap(),
        "seekwel::model does not take arguments"
    );
    let mut generic = person_item();
    generic.generics = vec![GenericParamSyntax::Type];
    assert_eq!(
        expand_plain_model_attribute(false, generic).err().unwrap(),
        "seekwel::model only supports non-generic structs; the macro injects the typestate generic for you"
    );
    let mut tuple = person_item();
    tuple.fields = None;
    assert_eq!(
        expand_plain_model_attribute(false, tuple).err().unwrap(),
        "seekwel::model only supports structs with named fields"
    );
    let expanded = match expand_plain_model_attribute(false, person_item()) {
        Ok(out) => out,
        Err(message) => panic!("unexpected refusal: {message}"),
    };
    assert_eq!(expanded.generics, vec![GenericParamSyntax::Type]);
    assert_eq!(expanded.attrs.len(), 1);
    assert!(matches!(expanded.attrs[0], ModelAttrSyntax::DerivePlainModel));
    match &expanded.data {
        DataSyntax::NamedStruct(fields) => {
            assert_eq!(fields.len(), 3);
            assert_eq!(fields[2].ident, "__seekwel_state");
            assert_eq!(fields[2].ty_text, "std::marker::PhantomData<S>");
        }
        _ => panic!("expected named fields"),
    }
    let derived = analyze_derive(&expanded);
    assert!(derived.is_ok());
}
