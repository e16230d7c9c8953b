use optional_struct::classify::{
    classify_field, CompletenessRule, ConversionRule, FieldClass, FieldRef, MergeRule, PartialType,
};
use optional_struct::derive::{derive_partial, Derivation, GlobalOptions};
use optional_struct::schema::{
    is_type_option, DeriveError, FieldAttr, FieldDescriptor, ParamToken, Parameters, RecordKind,
    RecordSchema, TypeShape,
};

fn path(name: &str) -> TypeShape {
    TypeShape::Path(Some(name.to_string()))
}

fn field(ty: TypeShape, attrs: Vec<FieldAttr>) -> FieldDescriptor {
    FieldDescriptor { named: true, ty, attrs }
}

fn record(fields: Vec<FieldDescriptor>) -> RecordSchema {
    RecordSchema {
        name: "Record".to_string(),
        kind: RecordKind::Struct,
        fields,
        capabilities: vec![],
    }
}

fn defaults() -> Parameters {
    Parameters::parse(&vec![]).unwrap()
}

fn derive(schema: &RecordSchema) -> Derivation {
    derive_partial(schema, &defaults()).unwrap()
}

#[test]
fn option_detection_by_last_segment() {
    assert_eq!(is_type_option(&path("Option")), Some(true));
    assert_eq!(is_type_option(&path("Vec")), Some(false));
    assert_eq!(is_type_option(&TypeShape::Path(None)), Some(false));
    assert_eq!(is_type_option(&TypeShape::Paren(Box::new(path("Option")))), Some(true));
    assert_eq!(is_type_option(&TypeShape::Tuple), Some(false));
    assert_eq!(is_type_option(&TypeShape::Array), Some(false));
    assert_eq!(is_type_option(&TypeShape::Reference), None);
    assert_eq!(is_type_option(&TypeShape::Paren(Box::new(TypeShape::Slice))), None);
    assert_eq!(is_type_option(&TypeShape::BareFn), None);
}

#[test]
fn parameters_grammar() {
    let p = Parameters::parse(&vec![]).unwrap();
    assert_eq!(p.new_name, None);
    assert!(p.default_wrapping);
    let p = Parameters::parse(&vec![ParamToken::Ident("Patch".to_string())]).unwrap();
    assert_eq!(p.new_name, Some("Patch".to_string()));
    assert!(p.default_wrapping);
    let p = Parameters::parse(&vec![ParamToken::Ident("Patch".to_string()), ParamToken::Comma]).unwrap();
    assert_eq!(p.new_name, Some("Patch".to_string()));
    assert!(p.default_wrapping);
    let p = Parameters::parse(&vec![
        ParamToken::Ident("Patch".to_string()),
        ParamToken::Comma,
        ParamToken::Bool(false),
    ])
    .unwrap();
    assert_eq!(p.new_name, Some("Patch".to_string()));
    assert!(!p.default_wrapping);
}

#[test]
fn malformed_parameters_are_refused() {
    let bad = vec![
        vec![ParamToken::Bool(false)],
        vec![ParamToken::Comma],
        vec![ParamToken::Ident("A".to_string()), ParamToken::Ident("B".to_string())],
        vec![ParamToken::Ident("A".to_string()), ParamToken::Comma, ParamToken::Ident("B".to_string())],
        vec![
            ParamToken::Ident("A".to_string()),
            ParamToken::Comma,
            ParamToken::Bool(true),
            ParamToken::Comma,
        ],
    ];
    for tokens in bad {
        assert_eq!(Parameters::parse(&tokens), Err(DeriveError::MalformedParameters));
    }
}

#[test]
fn default_wrap_makes_plain_fields_optional() {
    let schema = record(vec![field(path("i64"), vec![]), field(path("Option"), vec![])]);
    let d = derive(&schema);
    assert_eq!(d.partial_name, "OptionalRecord");
    assert_eq!(d.fields[0].class, FieldClass { base_optional: false, wrapped: true, nested: false });
    assert_eq!(d.fields[0].partial_type(), PartialType::OptionalDeclared);
    assert_eq!(d.fields[1].class, FieldClass { base_optional: true, wrapped: false, nested: false });
    assert_eq!(d.fields[1].partial_type(), PartialType::Declared);
    assert!(d.fields[0].public && d.fields[1].public);
}

#[test]
fn default_wrap_false_keeps_types() {
    let schema = record(vec![field(path("i64"), vec![])]);
    let params = Parameters::parse(&vec![
        ParamToken::Ident("Draft".to_string()),
        ParamToken::Comma,
        ParamToken::Bool(false),
    ])
    .unwrap();
    let d = derive_partial(&schema, &params).unwrap();
    assert_eq!(d.partial_name, "Draft");
    assert_eq!(d.fields[0].partial_type(), PartialType::Declared);
}

#[test]
fn annotations_last_one_wins() {
    let f = field(path("u8"), vec![FieldAttr::Wrap, FieldAttr::SkipWrap]);
    assert!(!classify_field(&f, 0, false, true).unwrap().class.wrapped);
    let f = field(path("u8"), vec![FieldAttr::SkipWrap, FieldAttr::Wrap]);
    assert!(classify_field(&f, 0, false, true).unwrap().class.wrapped);
    let f = field(path("Option"), vec![FieldAttr::Wrap]);
    let o = classify_field(&f, 0, true, true).unwrap();
    assert_eq!(o.class, FieldClass { base_optional: true, wrapped: true, nested: false });
}

#[test]
fn rename_substitutes_and_disables_wrap() {
    let f = field(path("Inner"), vec![FieldAttr::Rename { well_formed: true }]);
    let o = classify_field(&f, 0, true, true).unwrap();
    assert_eq!(o.class, FieldClass { base_optional: false, wrapped: false, nested: true });
    assert_eq!(o.substitute, Some(0));
    assert_eq!(o.partial_type(), PartialType::Substitute(0));
    let f = field(path("Inner"), vec![FieldAttr::Rename { well_formed: true }, FieldAttr::Wrap]);
    let o = classify_field(&f, 0, true, true).unwrap();
    assert_eq!(o.partial_type(), PartialType::OptionalSubstitute(0));
}

#[test]
fn helper_annotations_are_stripped_in_order() {
    let f = FieldDescriptor {
        named: false,
        ty: path("u8"),
        attrs: vec![
            FieldAttr::Other,
            FieldAttr::Rename { well_formed: true },
            FieldAttr::Cfg,
            FieldAttr::SkipWrap,
            FieldAttr::Other,
            FieldAttr::Wrap,
        ],
    };
    let o = classify_field(&f, 3, true, true).unwrap();
    assert_eq!(o.kept_attrs, vec![0, 2, 4]);
    assert_eq!(o.guard, Some(2));
    assert_eq!(o.substitute, Some(1));
    assert_eq!(o.field_ref, FieldRef::Index(3));
}

#[test]
fn unsupported_shapes_abort_the_derivation() {
    let schema = record(vec![field(path("u8"), vec![]), field(TypeShape::Reference, vec![])]);
    assert_eq!(derive_partial(&schema, &defaults()), Err(DeriveError::UnsupportedFieldType { field: 1 }));
    let schema = record(vec![field(TypeShape::Never, vec![]), field(TypeShape::Slice, vec![])]);
    assert_eq!(derive_partial(&schema, &defaults()), Err(DeriveError::UnsupportedFieldType { field: 0 }));
}

#[test]
fn malformed_rename_aborts_the_derivation() {
    let schema = record(vec![field(path("u8"), vec![FieldAttr::Rename { well_formed: false }])]);
    assert_eq!(derive_partial(&schema, &defaults()), Err(DeriveError::MalformedRename { field: 0 }));
}

#[test]
fn non_records_are_refused() {
    let mut schema = record(vec![]);
    schema.kind = RecordKind::Enum;
    assert_eq!(derive_partial(&schema, &defaults()), Err(DeriveError::NotARecord));
    schema.kind = RecordKind::Union;
    assert_eq!(derive_partial(&schema, &defaults()), Err(DeriveError::NotARecord));
    schema.kind = RecordKind::Unit;
    assert_eq!(derive_partial(&schema, &defaults()), Err(DeriveError::UnitRecord));
}

#[test]
fn capabilities_already_present_are_not_repeated() {
    let mut schema = record(vec![field(path("u8"), vec![])]);
    assert_eq!(derive(&schema).derives, vec!["Clone", "PartialEq", "Default", "Debug"]);
    schema.capabilities = vec!["Debug".to_string(), "Clone".to_string(), "Hash".to_string()];
    assert_eq!(derive(&schema).derives, vec!["PartialEq", "Default"]);
    let options = GlobalOptions::new(&defaults(), &schema);
    assert_eq!(options.derives_to_add(&vec!["PartialEq".to_string()]), vec!["Clone", "Default", "Debug"]);
}

#[test]
fn deriving_twice_gives_the_same_result() {
    let schema = record(vec![
        field(path("u8"), vec![FieldAttr::Cfg]),
        field(path("Inner"), vec![FieldAttr::Rename { well_formed: true }]),
        field(path("Option"), vec![]),
    ]);
    assert_eq!(derive(&schema), derive(&schema));
}

#[test]
fn generator_tables() {
    let c = |base_optional, wrapped, nested| FieldClass { base_optional, wrapped, nested };
    assert_eq!(c(false, true, false).completeness(), CompletenessRule::Present);
    assert_eq!(c(false, true, true).completeness(), CompletenessRule::AbsentOrComplete);
    assert_eq!(c(true, false, true).completeness(), CompletenessRule::Complete);
    assert_eq!(c(true, false, false).completeness(), CompletenessRule::Always);
    assert_eq!(c(false, true, false).conversion(), ConversionRule::Unwrap);
    assert_eq!(c(false, true, true).conversion(), ConversionRule::UnwrapConvert);
    assert_eq!(c(false, false, true).conversion(), ConversionRule::Convert);
    assert_eq!(c(true, false, false).conversion(), ConversionRule::AsIs);
    assert_eq!(c(true, false, true).merge(), MergeRule::ConvertOrMerge);
    assert_eq!(c(true, false, false).merge(), MergeRule::OverwriteIfPresent);
    assert_eq!(c(false, false, true).merge(), MergeRule::Merge);
    assert_eq!(c(false, false, false).merge(), MergeRule::Overwrite);
    assert_eq!(c(true, true, true).merge(), MergeRule::MergeInnerIfPresent);
    assert_eq!(c(false, true, false).merge(), MergeRule::OverwriteWithInnerIfPresent);
}
