use optional_struct::classify::FieldClass;
use optional_struct::derive::derive_partial;
use optional_struct::instance::{FieldRule, PartialSchema, Value};
use optional_struct::schema::{FieldAttr, FieldDescriptor, Parameters, RecordKind, RecordSchema, TypeShape};

fn class(base_optional: bool, wrapped: bool, nested: bool) -> FieldClass {
    FieldClass { base_optional, wrapped, nested }
}

fn rule(base_optional: bool, wrapped: bool) -> FieldRule {
    FieldRule { class: class(base_optional, wrapped, false), active: true, nested: None }
}

fn nested_rule(base_optional: bool, wrapped: bool, inner: PartialSchema) -> FieldRule {
    FieldRule { class: class(base_optional, wrapped, true), active: true, nested: Some(Box::new(inner)) }
}

fn some(v: Value) -> Value {
    Value::Present(Box::new(v))
}

fn text(s: &str) -> Value {
    Value::Text(s.to_string())
}

/// `{x: optional<int>, y: int}` with `x` wrapped.
fn inner_schema() -> PartialSchema {
    PartialSchema { fields: vec![rule(false, true), rule(false, false)] }
}

fn id_name_schema() -> PartialSchema {
    let schema = RecordSchema {
        name: "User".to_string(),
        kind: RecordKind::Struct,
        fields: vec![
            FieldDescriptor { named: true, ty: TypeShape::Path(Some("i64".to_string())), attrs: vec![] },
            FieldDescriptor { named: true, ty: TypeShape::Path(Some("String".to_string())), attrs: vec![] },
        ],
        capabilities: vec![],
    };
    let d = derive_partial(&schema, &Parameters::parse(&vec![]).unwrap()).unwrap();
    assert_eq!(d.partial_name, "OptionalUser");
    d.operations(&vec![true, true], vec![None, None])
}

#[test]
fn id_name_example() {
    let s = id_name_schema();
    let partial = vec![some(Value::Int(7)), Value::Absent];
    assert!(!s.is_complete(&partial));
    assert_eq!(s.try_convert(partial), Err(vec![some(Value::Int(7)), Value::Absent]));
    let partial = vec![some(Value::Int(7)), some(text("a"))];
    assert!(s.is_complete(&partial));
    assert_eq!(s.try_convert(partial), Ok(vec![Value::Int(7), text("a")]));
}

#[test]
fn complete_instance_converts_field_by_field() {
    let s = PartialSchema {
        fields: vec![rule(false, true), nested_rule(false, false, inner_schema()), rule(true, false)],
    };
    let p = vec![
        some(text("t")),
        Value::Record(vec![some(Value::Int(1)), Value::Int(2)]),
        Value::Absent,
    ];
    assert!(s.is_complete(&p));
    assert_eq!(
        s.try_convert(p),
        Ok(vec![text("t"), Value::Record(vec![Value::Int(1), Value::Int(2)]), Value::Absent])
    );
}

#[test]
fn incomplete_instance_comes_back_unchanged() {
    let s = PartialSchema { fields: vec![rule(false, false), rule(false, true)] };
    let p = vec![Value::Int(3), Value::Absent];
    assert!(!s.is_complete(&p));
    assert_eq!(s.try_convert(p), Err(vec![Value::Int(3), Value::Absent]));
}

#[test]
fn absent_optional_nested_field_is_complete_but_does_not_convert() {
    let s = PartialSchema { fields: vec![nested_rule(false, true, inner_schema())] };
    let p = vec![Value::Absent];
    assert!(s.is_complete(&p));
    assert_eq!(s.try_convert(p), Err(vec![Value::Absent]));
}

#[test]
fn incomplete_nested_value_makes_outer_incomplete() {
    let s = PartialSchema { fields: vec![nested_rule(false, true, inner_schema())] };
    let p = vec![some(Value::Record(vec![Value::Absent, Value::Int(2)]))];
    assert!(!s.is_complete(&p));
    let s = PartialSchema { fields: vec![nested_rule(false, false, inner_schema())] };
    let p = vec![Value::Record(vec![Value::Absent, Value::Int(2)])];
    assert!(!s.is_complete(&p));
    assert_eq!(s.try_convert(p), Err(vec![Value::Record(vec![Value::Absent, Value::Int(2)])]));
}

#[test]
fn inactive_guarded_field_is_not_referenced() {
    let schema = RecordSchema {
        name: "Conf".to_string(),
        kind: RecordKind::Struct,
        fields: vec![
            FieldDescriptor { named: true, ty: TypeShape::Path(Some("u8".to_string())), attrs: vec![FieldAttr::Cfg] },
            FieldDescriptor { named: true, ty: TypeShape::Path(Some("u8".to_string())), attrs: vec![] },
        ],
        capabilities: vec![],
    };
    let d = derive_partial(&schema, &Parameters::parse(&vec![]).unwrap()).unwrap();
    let s = d.operations(&vec![false, false], vec![None, None]);
    assert!(!s.fields[0].active);
    assert!(s.fields[1].active);
    assert_eq!(s.instance_width(), 1);
    let p = vec![some(Value::Int(5))];
    assert!(s.is_complete(&p));
    assert_eq!(s.try_convert(p), Ok(vec![Value::Int(5)]));
    let s = d.operations(&vec![true, false], vec![None, None]);
    assert_eq!(s.instance_width(), 2);
}

#[test]
fn round_trip_without_nested_fields() {
    let s = PartialSchema { fields: vec![rule(false, true), rule(false, false), rule(true, false), rule(true, true)] };
    let base = vec![Value::Int(1), text("b"), Value::Absent, some(Value::Int(4))];
    let p = vec![some(Value::Int(1)), text("b"), Value::Absent, some(some(Value::Int(4)))];
    assert_eq!(s.try_convert(p), Ok(base));
}

#[test]
fn merge_overwrites_present_fields() {
    let s = PartialSchema { fields: vec![rule(false, true), rule(false, true), rule(true, false), rule(false, false)] };
    let mut base = vec![Value::Int(1), Value::Int(2), some(Value::Int(3)), text("old")];
    let p = vec![some(Value::Int(10)), Value::Absent, Value::Absent, text("new")];
    s.apply_to(p, &mut base);
    assert_eq!(base, vec![Value::Int(10), Value::Int(2), some(Value::Int(3)), text("new")]);
    let p = vec![Value::Absent, some(Value::Int(20)), some(Value::Int(30)), text("newer")];
    s.apply_to(p, &mut base);
    assert_eq!(base, vec![Value::Int(10), Value::Int(20), some(Value::Int(30)), text("newer")]);
}

#[test]
fn merge_twice_equals_merge_once() {
    let s = PartialSchema { fields: vec![rule(false, true), rule(true, false), rule(false, false)] };
    let make = || vec![some(Value::Int(9)), Value::Absent, text("z")];
    let mut once = vec![Value::Int(1), some(Value::Int(2)), text("a")];
    s.apply_to(make(), &mut once);
    let mut twice = vec![Value::Int(1), some(Value::Int(2)), text("a")];
    s.apply_to(make(), &mut twice);
    s.apply_to(make(), &mut twice);
    assert_eq!(once, twice);
    assert_eq!(once, vec![Value::Int(9), some(Value::Int(2)), text("z")]);
}

#[test]
fn merge_recurses_into_nested_fields() {
    let s = PartialSchema {
        fields: vec![nested_rule(false, false, inner_schema()), nested_rule(false, true, inner_schema())],
    };
    let mut base = vec![
        Value::Record(vec![Value::Int(1), Value::Int(2)]),
        Value::Record(vec![Value::Int(3), Value::Int(4)]),
    ];
    let p = vec![
        Value::Record(vec![Value::Absent, Value::Int(20)]),
        some(Value::Record(vec![some(Value::Int(30)), Value::Int(40)])),
    ];
    s.apply_to(p, &mut base);
    assert_eq!(
        base,
        vec![
            Value::Record(vec![Value::Int(1), Value::Int(20)]),
            Value::Record(vec![Value::Int(30), Value::Int(40)]),
        ]
    );
}

#[test]
fn merge_into_optional_nested_base() {
    let s = PartialSchema { fields: vec![nested_rule(true, false, inner_schema())] };
    let mut base = vec![Value::Absent];
    s.apply_to(vec![some(Value::Record(vec![Value::Absent, Value::Int(2)]))], &mut base);
    assert_eq!(base, vec![Value::Absent]);
    s.apply_to(vec![some(Value::Record(vec![some(Value::Int(1)), Value::Int(2)]))], &mut base);
    assert_eq!(base, vec![some(Value::Record(vec![Value::Int(1), Value::Int(2)]))]);
    s.apply_to(vec![some(Value::Record(vec![Value::Absent, Value::Int(5)]))], &mut base);
    assert_eq!(base, vec![some(Value::Record(vec![Value::Int(1), Value::Int(5)]))]);
    s.apply_to(vec![Value::Absent], &mut base);
    assert_eq!(base, vec![some(Value::Record(vec![Value::Int(1), Value::Int(5)]))]);
}
