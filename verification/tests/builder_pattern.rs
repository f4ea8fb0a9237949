use builder::builder::{Builder, FieldValue, Record};
use builder::schema::{
    Annotation, AttrValue, Directive, DirectiveEntry, FieldDescriptor, RawField, SchemaInput,
    SynthesisError, TypeExpr,
};
use builder::shape::{classify_field, FieldShape};
use builder::synth::{synthesize, BuilderPlan};

fn named(n: &str) -> TypeExpr {
    TypeExpr::Named(n.to_string())
}

fn wrapped(w: &str, inner: TypeExpr) -> TypeExpr {
    TypeExpr::Wrapper(w.to_string(), Box::new(inner))
}

fn each(name: &str) -> Annotation {
    Annotation {
        entries: vec![DirectiveEntry {
            key: "each".to_string(),
            value: AttrValue::Text(name.to_string()),
        }],
    }
}

fn raw(name: &str, declared_type: TypeExpr, annotations: Vec<Annotation>) -> RawField {
    RawField {
        name: name.to_string(),
        declared_type,
        annotations,
    }
}

fn plan_of(fields: Vec<RawField>) -> BuilderPlan {
    match synthesize(SchemaInput::NamedFields(fields)) {
        Ok(plan) => plan,
        Err(_) => panic!("synthesis failed"),
    }
}

fn record_values(rec: Record<String>) -> Vec<(String, FieldValue<String>)> {
    rec.fields.into_iter().map(|f| (f.name, f.value)).collect()
}

#[test]
fn required_build_succeeds_when_all_set() {
    let plan = plan_of(vec![raw("a", named("u32"), vec![]), raw("b", named("u32"), vec![])]);
    let mut b = Builder::<String>::new(plan);
    assert!(b.send("a", "1".to_string()));
    assert!(b.send("b", "2".to_string()));
    assert!(b.build().is_ok());
}

#[test]
fn required_build_fails_when_one_unset() {
    let plan = plan_of(vec![raw("a", named("u32"), vec![]), raw("b", named("u32"), vec![])]);
    let mut b = Builder::<String>::new(plan);
    assert!(b.send("b", "2".to_string()));
    match b.build() {
        Ok(_) => panic!("build must fail"),
        Err(m) => assert_eq!(m.field, "a"),
    }
}

#[test]
fn unset_optional_resolves_absent() {
    let plan = plan_of(vec![raw("note", wrapped("optional", named("String")), vec![])]);
    let b = Builder::<String>::new(plan);
    let rec = b.build().ok().expect("optional-only schema must build");
    let vals = record_values(rec);
    assert_eq!(vals.len(), 1);
    assert_eq!(vals[0].0, "note");
    assert!(matches!(vals[0].1, FieldValue::Maybe(None)));
}

#[test]
fn accumulator_keeps_call_order() {
    let plan = plan_of(vec![raw("xs", wrapped("sequence", named("String")), vec![each("x")])]);
    let mut b = Builder::<String>::new(plan);
    assert!(b.send("x", "v1".to_string()));
    assert!(b.send("x", "v2".to_string()));
    assert!(b.send("x", "v3".to_string()));
    let rec = b.build().ok().expect("repeated-only schema must build");
    let vals = record_values(rec);
    match &vals[0].1 {
        FieldValue::Many(es) => assert_eq!(es, &vec!["v1".to_string(), "v2".to_string(), "v3".to_string()]),
        _ => panic!("expected a sequence"),
    }
}

#[test]
fn accumulator_never_called_yields_empty() {
    let plan = plan_of(vec![raw("xs", wrapped("sequence", named("String")), vec![each("x")])]);
    let b = Builder::<String>::new(plan);
    let rec = b.build().ok().expect("repeated-only schema must build");
    let vals = record_values(rec);
    match &vals[0].1 {
        FieldValue::Many(es) => assert!(es.is_empty()),
        _ => panic!("expected a sequence"),
    }
}

#[test]
fn bulk_setter_replaces_accumulated() {
    let plan = plan_of(vec![raw("xs", wrapped("sequence", named("String")), vec![each("x")])]);
    let mut b = Builder::<String>::new(plan);
    assert!(b.send("x", "old1".to_string()));
    assert!(b.send("x", "old2".to_string()));
    assert!(b.send_all("xs", vec!["new".to_string()]));
    let rec = b.build().ok().expect("repeated-only schema must build");
    let vals = record_values(rec);
    match &vals[0].1 {
        FieldValue::Many(es) => assert_eq!(es, &vec!["new".to_string()]),
        _ => panic!("expected a sequence"),
    }
}

#[test]
fn each_on_optional_sequence_is_repeated() {
    let fd = FieldDescriptor {
        name: "xs".to_string(),
        declared_type: wrapped("optional", wrapped("sequence", named("T"))),
        directives: vec![Directive::Each("x".to_string())],
    };
    match classify_field(fd) {
        Ok(FieldShape::Repeated(TypeExpr::Named(inner), accum)) => {
            assert_eq!(inner, "T");
            assert_eq!(accum, "x");
        }
        _ => panic!("expected the repeated shape"),
    }
}

#[test]
fn name_collision_emits_only_accumulator() {
    let plan = plan_of(vec![raw("arg", wrapped("sequence", named("String")), vec![each("arg")])]);
    let mut b = Builder::<String>::new(plan);
    assert!(b.send("arg", "one".to_string()));
    assert!(b.send("arg", "two".to_string()));
    assert!(!b.send_all("arg", vec!["replacement".to_string()]));
    let rec = b.build().ok().expect("repeated-only schema must build");
    let vals = record_values(rec);
    match &vals[0].1 {
        FieldValue::Many(es) => assert_eq!(es, &vec!["one".to_string(), "two".to_string()]),
        _ => panic!("expected a sequence"),
    }
}

#[test]
fn missing_field_reports_first_in_declaration_order() {
    let plan = plan_of(vec![
        raw("a", named("u32"), vec![]),
        raw("b", named("u32"), vec![]),
        raw("c", named("u32"), vec![]),
    ]);
    let mut b = Builder::<String>::new(plan);
    assert!(b.send("b", "set".to_string()));
    match b.build() {
        Ok(_) => panic!("build must fail"),
        Err(m) => assert_eq!(m.field, "a"),
    }
}

#[test]
fn round_trip_all_shapes() {
    let plan = plan_of(vec![
        raw("req", named("String"), vec![]),
        raw("opt", wrapped("optional", named("String")), vec![]),
        raw("many", wrapped("sequence", named("String")), vec![each("one")]),
    ]);
    let mut b = Builder::<String>::new(plan);
    assert!(b.send("req", "r".to_string()));
    assert!(b.send("opt", "o".to_string()));
    assert!(b.send("one", "m1".to_string()));
    assert!(b.send("one", "m2".to_string()));
    let rec = b.build().ok().expect("fully set builder must build");
    let vals = record_values(rec);
    assert_eq!(vals.len(), 3);
    assert_eq!(vals[0].0, "req");
    match &vals[0].1 {
        FieldValue::Single(v) => assert_eq!(v, "r"),
        _ => panic!("expected a single value"),
    }
    assert_eq!(vals[1].0, "opt");
    match &vals[1].1 {
        FieldValue::Maybe(Some(v)) => assert_eq!(v, "o"),
        _ => panic!("expected a present optional value"),
    }
    assert_eq!(vals[2].0, "many");
    match &vals[2].1 {
        FieldValue::Many(es) => assert_eq!(es, &vec!["m1".to_string(), "m2".to_string()]),
        _ => panic!("expected a sequence"),
    }
}

#[test]
fn command_scenario() {
    let plan = plan_of(vec![
        raw("executable", named("String"), vec![]),
        raw("args", wrapped("sequence", named("String")), vec![each("arg")]),
        raw("env", wrapped("optional", named("String")), vec![]),
    ]);
    let mut b = Builder::<String>::new(plan);
    assert!(b.send("arg", "--verbose".to_string()));
    assert!(b.send("arg", "--quiet".to_string()));
    assert!(b.send("executable", "run".to_string()));
    let rec = b.build().ok().expect("scenario must build");
    let vals = record_values(rec);
    assert_eq!(vals[0].0, "executable");
    match &vals[0].1 {
        FieldValue::Single(v) => assert_eq!(v, "run"),
        _ => panic!("expected a single value"),
    }
    assert_eq!(vals[1].0, "args");
    match &vals[1].1 {
        FieldValue::Many(es) => {
            assert_eq!(es, &vec!["--verbose".to_string(), "--quiet".to_string()])
        }
        _ => panic!("expected a sequence"),
    }
    assert_eq!(vals[2].0, "env");
    assert!(matches!(vals[2].1, FieldValue::Maybe(None)));
}

#[test]
fn setter_overwrites_previous_value() {
    let plan = plan_of(vec![raw("a", named("u32"), vec![])]);
    let mut b = Builder::<String>::new(plan);
    assert!(b.send("a", "first".to_string()));
    assert!(b.send("a", "second".to_string()));
    let rec = b.build().ok().expect("set builder must build");
    let vals = record_values(rec);
    match &vals[0].1 {
        FieldValue::Single(v) => assert_eq!(v, "second"),
        _ => panic!("expected a single value"),
    }
}

#[test]
fn unknown_method_matches_nothing() {
    let plan = plan_of(vec![raw("a", named("u32"), vec![])]);
    let mut b = Builder::<String>::new(plan);
    assert!(!b.send("missing", "v".to_string()));
    assert!(!b.send_all("a", vec!["v".to_string()]));
}

#[test]
fn positional_schema_is_unsupported() {
    let r = synthesize(SchemaInput::Positional(vec![named("u32")]));
    assert!(matches!(r, Err(SynthesisError::UnsupportedSchema)));
}

#[test]
fn variant_schema_is_unsupported() {
    let r = synthesize(SchemaInput::Variants(vec!["A".to_string(), "B".to_string()]));
    assert!(matches!(r, Err(SynthesisError::UnsupportedSchema)));
}

#[test]
fn directive_with_wrong_key_is_invalid() {
    let ann = Annotation {
        entries: vec![DirectiveEntry {
            key: "every".to_string(),
            value: AttrValue::Text("x".to_string()),
        }],
    };
    let r = synthesize(SchemaInput::NamedFields(vec![raw(
        "xs",
        wrapped("sequence", named("T")),
        vec![ann],
    )]));
    match r {
        Err(SynthesisError::InvalidDirective(n)) => assert_eq!(n, "xs"),
        _ => panic!("expected an invalid directive"),
    }
}

#[test]
fn directive_with_two_entries_is_invalid() {
    let ann = Annotation {
        entries: vec![
            DirectiveEntry {
                key: "each".to_string(),
                value: AttrValue::Text("x".to_string()),
            },
            DirectiveEntry {
                key: "each".to_string(),
                value: AttrValue::Text("y".to_string()),
            },
        ],
    };
    let r = synthesize(SchemaInput::NamedFields(vec![raw(
        "xs",
        wrapped("sequence", named("T")),
        vec![ann],
    )]));
    assert!(matches!(r, Err(SynthesisError::InvalidDirective(_))));
}

#[test]
fn directive_with_numeric_value_is_invalid() {
    let ann = Annotation {
        entries: vec![DirectiveEntry {
            key: "each".to_string(),
            value: AttrValue::Number(3),
        }],
    };
    let r = synthesize(SchemaInput::NamedFields(vec![raw(
        "xs",
        wrapped("sequence", named("T")),
        vec![ann],
    )]));
    assert!(matches!(r, Err(SynthesisError::InvalidDirective(_))));
}

#[test]
fn directive_with_bare_flag_is_invalid() {
    let ann = Annotation {
        entries: vec![DirectiveEntry {
            key: "each".to_string(),
            value: AttrValue::Flag,
        }],
    };
    let r = synthesize(SchemaInput::NamedFields(vec![raw(
        "xs",
        wrapped("sequence", named("T")),
        vec![ann],
    )]));
    assert!(matches!(r, Err(SynthesisError::InvalidDirective(_))));
}

#[test]
fn directive_with_non_identifier_name_is_invalid() {
    let r = synthesize(SchemaInput::NamedFields(vec![raw(
        "xs",
        wrapped("sequence", named("T")),
        vec![each("not an identifier")],
    )]));
    assert!(matches!(r, Err(SynthesisError::InvalidDirective(_))));
}

#[test]
fn each_on_plain_type_is_invalid_target() {
    let r = synthesize(SchemaInput::NamedFields(vec![
        raw("ok", named("u32"), vec![]),
        raw("xs", named("T"), vec![each("x")]),
    ]));
    match r {
        Err(SynthesisError::InvalidEachTarget(n)) => assert_eq!(n, "xs"),
        _ => panic!("expected an invalid each target"),
    }
}

#[test]
fn each_on_optional_plain_type_is_invalid_target() {
    let r = synthesize(SchemaInput::NamedFields(vec![raw(
        "xs",
        wrapped("optional", named("T")),
        vec![each("x")],
    )]));
    assert!(matches!(r, Err(SynthesisError::InvalidEachTarget(_))));
}

#[test]
fn invalid_directive_reported_before_invalid_target() {
    let ann = Annotation {
        entries: vec![DirectiveEntry {
            key: "every".to_string(),
            value: AttrValue::Text("x".to_string()),
        }],
    };
    let r = synthesize(SchemaInput::NamedFields(vec![
        raw("bad_target", named("T"), vec![each("x")]),
        raw("bad_directive", wrapped("sequence", named("T")), vec![ann]),
    ]));
    match r {
        Err(SynthesisError::InvalidDirective(n)) => assert_eq!(n, "bad_directive"),
        _ => panic!("expected the directive diagnostic first"),
    }
}
