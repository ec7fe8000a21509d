use jg::error::ErrorKind;
use jg::eval::evaluate;
use jg::floatbits::f64_bits_is_finite;
use jg::floatbits::f64_bits_less;
use jg::scalars::generate_float;
use jg::scalars::generate_integer;
use jg::scalars::generate_random_string;
use jg::scalars::uuid_v4;
use jg::schema::SchemaNode;
use jg::schema::SeqStore;
use jg::strfn::JsonParser;
use jg::strfn::generate_json;
use jg::strfn::generate_random_string_from_function;
use jg::strutil::i64_to_string;
use jg::timestamp::render_timestamp;
use jg::value::JsonValue;

#[test]
fn generate_integer_respects_each_bound_shape() {
    for _ in 0..200 {
        match generate_integer(Some(1), Some(4)) {
            Ok(v) => assert!(1 <= v && v < 4),
            Err(_) => panic!("a non-empty range must sample"),
        }
    }
    assert!(matches!(generate_integer(Some(3), Some(3)), Err(e) if e.kind == ErrorKind::InvalidRange));
    assert!(matches!(generate_integer(Some(3), Some(2)), Err(e) if e.kind == ErrorKind::InvalidRange));
    assert!(generate_integer(None, None).is_ok());
}

#[test]
fn generate_random_string_is_bounded_and_alphanumeric() {
    for _ in 0..100 {
        let s = generate_random_string(3, 7);
        assert!(3 <= s.len() && s.len() <= 7);
        assert!(s.chars().all(|c| c.is_ascii_alphanumeric()));
    }
    assert_eq!(generate_random_string(0, 0), "");
}

#[test]
fn generate_float_stays_inside_its_bounds() {
    let lo = 1.5f64.to_bits();
    let hi = 2.5f64.to_bits();
    for _ in 0..100 {
        match generate_float(Some(lo), Some(hi)) {
            Ok(bits) => {
                let v = f64::from_bits(bits);
                assert!(1.5 <= v && v < 2.5, "sampled {v}");
            },
            Err(_) => panic!("a non-empty float range must sample"),
        }
    }
    assert!(matches!(generate_float(Some(hi), Some(lo)), Err(e) if e.kind == ErrorKind::InvalidRange));
    assert!(matches!(
        generate_float(Some(f64::NAN.to_bits()), Some(hi)),
        Err(e) if e.kind == ErrorKind::InvalidRange
    ));
    assert!(generate_float(None, None).is_ok());
}

#[test]
fn float_bit_order_matches_the_native_order() {
    let pairs = [(-3.5f64, -1.0f64), (-1.0, 0.5), (0.5, 2.0), (2.0, 1.0e300)];
    for (a, b) in pairs {
        assert!(f64_bits_less(a.to_bits(), b.to_bits()));
        assert!(!f64_bits_less(b.to_bits(), a.to_bits()));
    }
    assert!(f64_bits_is_finite(1.0f64.to_bits()));
    assert!(!f64_bits_is_finite(f64::INFINITY.to_bits()));
    assert!(!f64_bits_is_finite(f64::NAN.to_bits()));
}

#[test]
fn float_literal_passes_through_the_evaluator() {
    let bits = 6.25f64.to_bits();
    let node = SchemaNode::FloatScalar { value: Some(bits), min: None, max: None };
    let mut store = SeqStore::new();
    match evaluate(&node, None, &mut store) {
        Ok(JsonValue::Float(b)) => assert_eq!(f64::from_bits(b), 6.25),
        _ => panic!("a pinned float literal must come back verbatim"),
    }
}

#[test]
fn uuid_v4_has_the_canonical_shape() {
    let u = uuid_v4();
    let b: Vec<char> = u.chars().collect();
    assert_eq!(b.len(), 36);
    for (i, c) in b.iter().enumerate() {
        match i {
            8 | 13 | 18 | 23 => assert_eq!(*c, '-'),
            14 => assert_eq!(*c, '4'),
            19 => assert!(matches!(*c, '8' | '9' | 'a' | 'b')),
            _ => assert!(c.is_ascii_hexdigit() && !c.is_ascii_uppercase()),
        }
    }
}

#[test]
fn decimal_rendering_is_exact() {
    assert_eq!(i64_to_string(0), "0");
    assert_eq!(i64_to_string(7), "7");
    assert_eq!(i64_to_string(-1), "-1");
    assert_eq!(i64_to_string(1203), "1203");
    assert_eq!(i64_to_string(i64::MAX), "9223372036854775807");
    assert_eq!(i64_to_string(i64::MIN), "-9223372036854775808");
}

#[test]
fn timestamp_rendering_is_exact() {
    assert_eq!(render_timestamp(0), "1970-01-01T00:00:00Z");
    assert_eq!(render_timestamp(951827696), "2000-02-29T12:34:56Z");
    assert_eq!(render_timestamp(4102444799), "2099-12-31T23:59:59Z");
}

#[test]
fn timestamp_scalar_without_literal_renders_now() {
    let node = SchemaNode::TimestampScalar { value: None, format: None };
    let mut store = SeqStore::new();
    match evaluate(&node, None, &mut store) {
        Ok(JsonValue::Text(t)) => {
            assert_eq!(t.len(), 20);
            assert!(t.ends_with('Z'));
            assert_eq!(&t[4..5], "-");
            assert_eq!(&t[10..11], "T");
        },
        _ => panic!("an unconstrained timestamp must render the current instant"),
    }
}

#[test]
fn string_function_form_is_recognized_and_expanded() {
    assert!(JsonParser::recognizes(&"string(1, 2, a, b)".to_string()));
    assert!(!JsonParser::recognizes(&"strong(1, 2, a, b)".to_string()));
    assert!(!JsonParser::recognizes(&"string(1, 2, a, b".to_string()));
    for _ in 0..50 {
        let out = generate_random_string_from_function(&"string(3, 5, a-, -b)".to_string())
            .expect("a well-formed form must expand");
        assert!(out.starts_with("a-") && out.ends_with("-b"), "got {out}");
        let mid = &out[2..out.len() - 2];
        assert!(3 <= mid.len() && mid.len() <= 5);
        assert!(mid.chars().all(|c| c.is_ascii_alphanumeric()));
    }
}

#[test]
fn wrong_arity_or_plain_text_falls_back_to_the_raw_text() {
    for raw in ["string(1, 2, a)", "string(1, 2, a, b, c)", "string()", "just text"] {
        match generate_random_string_from_function(&raw.to_string()) {
            Ok(out) => assert_eq!(out, raw),
            Err(_) => panic!("wrong arity falls back to the raw text"),
        }
    }
}

#[test]
fn bad_length_bounds_fail_the_field_with_invalid_range() {
    for raw in [
        "string(x, 2, a, b)",
        "string(1, y, a, b)",
        "string(, 2, a, b)",
        "string(5, 2, a, b)",
    ] {
        match generate_random_string_from_function(&raw.to_string()) {
            Err(e) => assert_eq!(e.kind, ErrorKind::InvalidRange),
            Ok(_) => panic!("bad length bounds must fail the field, not fall back"),
        }
    }
}

#[test]
fn generate_json_walks_the_tree_and_keeps_everything_else() {
    let v = JsonValue::Object(vec![
        ("n".to_string(), JsonValue::Int(5)),
        ("s".to_string(), JsonValue::Text("plain".to_string())),
        (
            "expanded".to_string(),
            JsonValue::Array(vec![JsonValue::Text("string(2, 2, <, >)".to_string())]),
        ),
    ]);
    let out = generate_json(&v).expect("a well-formed tree must expand");
    match out {
        JsonValue::Object(fields) => {
            assert_eq!(fields[0].0, "n");
            assert!(matches!(fields[0].1, JsonValue::Int(5)));
            assert!(matches!(&fields[1].1, JsonValue::Text(t) if t == "plain"));
            match &fields[2].1 {
                JsonValue::Array(items) => match &items[0] {
                    JsonValue::Text(t) => {
                        assert!(t.starts_with('<') && t.ends_with('>'));
                        assert_eq!(t.len(), 4);
                    },
                    _ => panic!("expected the expanded string"),
                },
                _ => panic!("expected the array to survive"),
            }
        },
        _ => panic!("expected the object to survive"),
    }
}

#[test]
fn generate_json_reports_the_failing_leaf_with_its_path() {
    let v = JsonValue::Object(vec![(
        "outer".to_string(),
        JsonValue::Array(vec![
            JsonValue::Int(1),
            JsonValue::Text("string(9, 2, a, b)".to_string()),
        ]),
    )]);
    match generate_json(&v) {
        Err(e) => {
            assert_eq!(e.kind, ErrorKind::InvalidRange);
            assert_eq!(e.path.len(), 2);
            assert!(matches!(&e.path[0], jg::error::PathSeg::Prop(p) if p == "outer"));
            assert!(matches!(&e.path[1], jg::error::PathSeg::Index(1)));
        },
        Ok(_) => panic!("inverted length bounds must fail the walk"),
    }
}

#[test]
fn trimming_handles_wide_whitespace_around_arguments() {
    let raw = "string(\u{2000}2 , 2\t, \u{A0}p, q )".to_string();
    let out = generate_random_string_from_function(&raw).expect("bounds 2..=2 are well formed");
    assert!(out.starts_with('p'), "leading wide space must be trimmed, got {out}");
    assert!(out.ends_with('q'));
    assert_eq!(out.len(), 4);
}
