use jg::error::ErrorKind;
use jg::eval::evaluate;
use jg::schema::ComponentRegistry;
use jg::schema::SchemaNode;
use jg::schema::SeqStore;
use jg::schema::SequenceDef;
use jg::value::JsonValue;

fn int_scalar(min: Option<i64>, max: Option<i64>) -> SchemaNode {
    SchemaNode::IntScalar { value: None, min, max }
}

fn reference(path: &str) -> SchemaNode {
    SchemaNode::Reference { path: path.to_string() }
}

#[test]
fn integer_bounds_hold_over_many_samples() {
    let node = int_scalar(Some(-3), Some(9));
    let mut store = SeqStore::new();
    for _ in 0..200 {
        match evaluate(&node, None, &mut store) {
            Ok(JsonValue::Int(v)) => assert!(-3 <= v && v < 9),
            other => panic!("expected an integer, got {:?}", kind_of(&other)),
        }
    }
}

#[test]
fn inverted_integer_bounds_fail_with_invalid_range() {
    let mut store = SeqStore::new();
    for (lo, hi) in [(5i64, 5i64), (7, 2)] {
        match evaluate(&int_scalar(Some(lo), Some(hi)), None, &mut store) {
            Err(e) => assert_eq!(e.kind, ErrorKind::InvalidRange),
            Ok(_) => panic!("an empty range must never sample"),
        }
    }
}

#[test]
fn single_sided_integer_bounds() {
    let mut store = SeqStore::new();
    for _ in 0..50 {
        match evaluate(&int_scalar(Some(i64::MAX - 1), None), None, &mut store) {
            Ok(JsonValue::Int(v)) => assert_eq!(v, i64::MAX - 1),
            _ => panic!("expected an integer"),
        }
        match evaluate(&int_scalar(None, Some(i64::MIN + 2)), None, &mut store) {
            Ok(JsonValue::Int(v)) => assert_eq!(v, i64::MIN + 1),
            _ => panic!("expected an integer"),
        }
    }
}

#[test]
fn string_scalar_wraps_a_bounded_random_portion() {
    let node = SchemaNode::StringScalar {
        value: None,
        min_length: Some(2),
        max_length: Some(6),
        prefix: "pre-".to_string(),
        suffix: "-suf".to_string(),
    };
    let mut store = SeqStore::new();
    for _ in 0..100 {
        match evaluate(&node, None, &mut store) {
            Ok(JsonValue::Text(t)) => {
                assert!(t.starts_with("pre-") && t.ends_with("-suf"));
                let mid = &t[4..t.len() - 4];
                assert!(2 <= mid.len() && mid.len() <= 6);
                assert!(mid.chars().all(|c| c.is_ascii_alphanumeric()));
            },
            _ => panic!("expected a string"),
        }
    }
}

#[test]
fn inverted_length_bounds_fail_with_invalid_range() {
    let node = SchemaNode::StringScalar {
        value: None,
        min_length: Some(4),
        max_length: Some(1),
        prefix: String::new(),
        suffix: String::new(),
    };
    let mut store = SeqStore::new();
    match evaluate(&node, None, &mut store) {
        Err(e) => assert_eq!(e.kind, ErrorKind::InvalidRange),
        Ok(_) => panic!("inverted length bounds must never sample"),
    }
}

#[test]
fn literal_scalar_ignores_bounds_entirely() {
    let node = SchemaNode::IntScalar { value: Some(42), min: Some(100), max: Some(50) };
    let mut store = SeqStore::new();
    match evaluate(&node, None, &mut store) {
        Ok(JsonValue::Int(v)) => assert_eq!(v, 42),
        _ => panic!("a pinned literal must come back verbatim"),
    }
    let text = SchemaNode::StringScalar {
        value: Some("fixed text".to_string()),
        min_length: Some(1),
        max_length: Some(2),
        prefix: "p".to_string(),
        suffix: "s".to_string(),
    };
    match evaluate(&text, None, &mut store) {
        Ok(JsonValue::Text(t)) => assert_eq!(t, "fixed text"),
        _ => panic!("a pinned literal must come back verbatim"),
    }
}

#[test]
fn int_sequence_observes_successive_values() {
    let mut reg = ComponentRegistry::new();
    reg.add_sequence("ids".to_string(), SequenceDef::IntSeq { start: 5 });
    let node = reference("components/sequences/ids");
    let mut store = SeqStore::new();
    let mut seen = Vec::new();
    for _ in 0..3 {
        match evaluate(&node, Some(&reg), &mut store) {
            Ok(JsonValue::Int(v)) => seen.push(v),
            _ => panic!("expected an integer"),
        }
    }
    assert_eq!(seen, vec![6, 7, 8]);
}

#[test]
fn fresh_stores_observe_identical_first_values() {
    let mut reg = ComponentRegistry::new();
    reg.add_sequence("ids".to_string(), SequenceDef::IntSeq { start: 11 });
    let node = reference("components/sequences/ids");
    let mut a = SeqStore::new();
    let mut b = SeqStore::new();
    let va = match evaluate(&node, Some(&reg), &mut a) {
        Ok(JsonValue::Int(v)) => v,
        _ => panic!("expected an integer"),
    };
    let vb = match evaluate(&node, Some(&reg), &mut b) {
        Ok(JsonValue::Int(v)) => v,
        _ => panic!("expected an integer"),
    };
    assert_eq!(va, 12);
    assert_eq!(va, vb);
}

#[test]
fn string_sequence_wraps_the_counter() {
    let mut reg = ComponentRegistry::new();
    reg.add_sequence(
        "tag".to_string(),
        SequenceDef::StringSeq { prefix: "u-".to_string(), suffix: "-x".to_string(), start: -2 },
    );
    let node = reference("components/sequences/tag");
    let mut store = SeqStore::new();
    let mut seen = Vec::new();
    for _ in 0..3 {
        match evaluate(&node, Some(&reg), &mut store) {
            Ok(JsonValue::Text(t)) => seen.push(t),
            _ => panic!("expected a string"),
        }
    }
    assert_eq!(seen, vec!["u--1-x", "u-0-x", "u-1-x"]);
}

#[test]
fn uuid_sequence_is_stateless_and_well_formed() {
    let mut reg = ComponentRegistry::new();
    reg.add_sequence("u".to_string(), SequenceDef::UuidSeq);
    let node = reference("components/sequences/u");
    let mut store = SeqStore::new();
    let mut seen = Vec::new();
    for _ in 0..5 {
        match evaluate(&node, Some(&reg), &mut store) {
            Ok(JsonValue::Text(t)) => {
                let b: Vec<char> = t.chars().collect();
                assert_eq!(b.len(), 36);
                assert_eq!((b[8], b[13], b[18], b[23]), ('-', '-', '-', '-'));
                assert_eq!(b[14], '4');
                assert!(matches!(b[19], '8' | '9' | 'a' | 'b'));
                seen.push(t);
            },
            _ => panic!("expected a string"),
        }
    }
    seen.sort();
    seen.dedup();
    assert!(seen.len() > 1, "five fresh UUIDs must not all collide");
}

#[test]
fn constant_reference_resolves_to_its_literal() {
    let mut reg = ComponentRegistry::new();
    reg.add_constant("x".to_string(), JsonValue::Int(42));
    let mut store = SeqStore::new();
    match evaluate(&reference("components/constants/x"), Some(&reg), &mut store) {
        Ok(JsonValue::Int(v)) => assert_eq!(v, 42),
        _ => panic!("the constant must resolve to the number 42"),
    }
}

#[test]
fn model_reference_evaluates_the_model() {
    let mut reg = ComponentRegistry::new();
    reg.add_model(
        "y".to_string(),
        SchemaNode::IntScalar { value: Some(7), min: None, max: None },
    );
    let mut store = SeqStore::new();
    match evaluate(&reference("components/models/y"), Some(&reg), &mut store) {
        Ok(JsonValue::Int(v)) => assert_eq!(v, 7),
        _ => panic!("the model must evaluate to 7"),
    }
}

#[test]
fn unknown_names_fail_with_unresolved_reference() {
    let reg = ComponentRegistry::new();
    let mut store = SeqStore::new();
    for path in [
        "components/models/nope",
        "components/constants/nope",
        "components/sequences/nope",
    ] {
        match evaluate(&reference(path), Some(&reg), &mut store) {
            Err(e) => assert_eq!(e.kind, ErrorKind::UnresolvedReference),
            Ok(_) => panic!("an unknown name must not resolve"),
        }
    }
}

#[test]
fn reference_error_taxonomy() {
    let reg = ComponentRegistry::new();
    let mut store = SeqStore::new();
    match evaluate(&reference("a/b"), Some(&reg), &mut store) {
        Err(e) => assert_eq!(e.kind, ErrorKind::MalformedReference),
        Ok(_) => panic!("two segments are malformed"),
    }
    match evaluate(&reference("a/b/c/d"), Some(&reg), &mut store) {
        Err(e) => assert_eq!(e.kind, ErrorKind::MalformedReference),
        Ok(_) => panic!("four segments are malformed"),
    }
    match evaluate(&reference("components/widgets/x"), Some(&reg), &mut store) {
        Err(e) => assert_eq!(e.kind, ErrorKind::UnknownReferenceKind),
        Ok(_) => panic!("widgets is not a registry kind"),
    }
    match evaluate(&reference("components/constants/x"), None, &mut store) {
        Err(e) => assert_eq!(e.kind, ErrorKind::NoComponentRegistry),
        Ok(_) => panic!("a reference without a registry is invalid"),
    }
}

#[test]
fn end_to_end_object_with_sequence_and_literal() {
    let mut reg = ComponentRegistry::new();
    reg.add_sequence("ids".to_string(), SequenceDef::IntSeq { start: 0 });
    let node = SchemaNode::Object {
        properties: Some(vec![
            ("id".to_string(), reference("components/sequences/ids")),
            (
                "name".to_string(),
                SchemaNode::StringScalar {
                    value: Some("fixed".to_string()),
                    min_length: None,
                    max_length: None,
                    prefix: String::new(),
                    suffix: String::new(),
                },
            ),
        ]),
        literal: None,
    };
    let mut store = SeqStore::new();
    for expected_id in [1i64, 2] {
        match evaluate(&node, Some(&reg), &mut store) {
            Ok(JsonValue::Object(fields)) => {
                assert_eq!(fields.len(), 2);
                assert_eq!(fields[0].0, "id");
                assert!(matches!(fields[0].1, JsonValue::Int(v) if v == expected_id));
                assert_eq!(fields[1].0, "name");
                assert!(matches!(&fields[1].1, JsonValue::Text(t) if t == "fixed"));
            },
            _ => panic!("expected the generated object"),
        }
    }
}

#[test]
fn malformed_object_node_fails_with_missing_node_variant() {
    let mut store = SeqStore::new();
    let neither = SchemaNode::Object { properties: None, literal: None };
    match evaluate(&neither, None, &mut store) {
        Err(e) => assert_eq!(e.kind, ErrorKind::MissingNodeVariant),
        Ok(_) => panic!("a node with neither form must never yield a value"),
    }
    let both = SchemaNode::Object {
        properties: Some(vec![]),
        literal: Some(JsonValue::Null),
    };
    match evaluate(&both, None, &mut store) {
        Err(e) => assert_eq!(e.kind, ErrorKind::MissingNodeVariant),
        Ok(_) => panic!("a node with both forms must never yield a value"),
    }
}

#[test]
fn child_failure_carries_the_failing_location() {
    let mut store = SeqStore::new();
    let node = SchemaNode::Object {
        properties: Some(vec![(
            "outer".to_string(),
            SchemaNode::Array {
                items: Some(vec![int_scalar(Some(9), Some(1))]),
                literal: None,
            },
        )]),
        literal: None,
    };
    match evaluate(&node, None, &mut store) {
        Err(e) => {
            assert_eq!(e.kind, ErrorKind::InvalidRange);
            assert_eq!(e.path.len(), 2);
            assert!(matches!(&e.path[0], jg::error::PathSeg::Prop(p) if p == "outer"));
            assert!(matches!(&e.path[1], jg::error::PathSeg::Index(0)));
        },
        Ok(_) => panic!("the invalid leaf must fail the whole run"),
    }
}

#[test]
fn array_and_literals_pass_through() {
    let mut store = SeqStore::new();
    let node = SchemaNode::Array {
        items: None,
        literal: Some(JsonValue::Array(vec![
            JsonValue::Bool(true),
            JsonValue::Null,
            JsonValue::Int(-7),
        ])),
    };
    match evaluate(&node, None, &mut store) {
        Ok(JsonValue::Array(items)) => {
            assert!(matches!(items[0], JsonValue::Bool(true)));
            assert!(matches!(items[1], JsonValue::Null));
            assert!(matches!(items[2], JsonValue::Int(-7)));
        },
        _ => panic!("a literal array must come back verbatim"),
    }
}

fn kind_of(r: &Result<JsonValue, jg::error::EvalError>) -> String {
    match r {
        Ok(_) => "ok".to_string(),
        Err(e) => format!("{:?}", e.kind),
    }
}

#[test]
fn sequences_inside_a_model_share_the_run_store() {
    let mut reg = ComponentRegistry::new();
    reg.add_sequence("n".to_string(), SequenceDef::IntSeq { start: 0 });
    reg.add_model("item".to_string(), reference("components/sequences/n"));
    let node = SchemaNode::Array {
        items: Some(vec![
            reference("components/models/item"),
            reference("components/models/item"),
            reference("components/sequences/n"),
        ]),
        literal: None,
    };
    let mut store = SeqStore::new();
    match evaluate(&node, Some(&reg), &mut store) {
        Ok(JsonValue::Array(items)) => {
            assert!(matches!(items[0], JsonValue::Int(1)));
            assert!(matches!(items[1], JsonValue::Int(2)));
            assert!(matches!(items[2], JsonValue::Int(3)));
        },
        _ => panic!("expected the three successive counters"),
    }
}

#[test]
fn empty_structural_forms_evaluate_to_empty_values() {
    let mut store = SeqStore::new();
    let node = SchemaNode::Object { properties: Some(vec![]), literal: None };
    match evaluate(&node, None, &mut store) {
        Ok(JsonValue::Object(fields)) => assert!(fields.is_empty()),
        _ => panic!("an empty object schema evaluates to an empty object"),
    }
    let node = SchemaNode::Array { items: Some(vec![]), literal: None };
    match evaluate(&node, None, &mut store) {
        Ok(JsonValue::Array(items)) => assert!(items.is_empty()),
        _ => panic!("an empty array schema evaluates to an empty array"),
    }
}
