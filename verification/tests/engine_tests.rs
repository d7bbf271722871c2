use dhi::engine::DhiCore;
use dhi::schema::SchemaError;
use dhi::value::Value;

fn vstr(s: &str) -> Value {
    Value::VStr(String::from(s))
}

fn vnum(n: i64) -> Value {
    Value::VNum(n)
}

fn vobj(fields: Vec<(&str, Value)>) -> Value {
    Value::VObj(fields.into_iter().map(|(k, v)| (String::from(k), v)).collect())
}

#[test]
fn name_required_age_optional() {
    let mut core = DhiCore::new();
    core.add_field(String::from("name"), "string", true).unwrap();
    core.add_field(String::from("age"), "number", false).unwrap();
    assert!(core.validate(&vobj(vec![("name", vstr("Alice"))])));
    assert!(!core.validate(&vobj(vec![("age", vnum(30))])));
}

#[test]
fn nested_object_field() {
    let mut core = DhiCore::new();
    core.add_object_field(String::from("address"), true);
    core.add_nested_field("address", String::from("zip"), "string", true).unwrap();
    let good = vobj(vec![("address", vobj(vec![("zip", vstr("10001"))]))]);
    let bad = vobj(vec![("address", vobj(vec![]))]);
    assert!(core.validate(&good));
    assert!(!core.validate(&bad));
}

#[test]
fn nested_two_levels() {
    let mut core = DhiCore::new();
    core.add_object_field(String::from("a"), true);
    core.add_nested_field("a", String::from("b"), "object", true).unwrap();
    core.add_nested_field("a.b", String::from("c"), "number", true).unwrap();
    let good = vobj(vec![("a", vobj(vec![("b", vobj(vec![("c", vnum(1))]))]))]);
    let bad = vobj(vec![("a", vobj(vec![("b", vobj(vec![("c", vstr("x"))]))]))]);
    assert!(core.validate(&good));
    assert!(!core.validate(&bad));
}

#[test]
fn nested_empty_path_acts_as_add_field() {
    let mut core = DhiCore::new();
    core.add_nested_field("", String::from("name"), "string", true).unwrap();
    assert!(core.validate(&vobj(vec![("name", vstr("x"))])));
    assert!(!core.validate(&vobj(vec![])));
}

#[test]
fn invalid_object_path_missing_segment() {
    let mut core = DhiCore::new();
    match core.add_nested_field("missing", String::from("zip"), "string", true) {
        Err(SchemaError::InvalidObjectPath) => {},
        _ => panic!("expected InvalidObjectPath"),
    }
}

#[test]
fn invalid_object_path_non_object_segment() {
    let mut core = DhiCore::new();
    core.add_field(String::from("a"), "string", true).unwrap();
    match core.add_nested_field("a", String::from("b"), "string", true) {
        Err(SchemaError::InvalidObjectPath) => {},
        _ => panic!("expected InvalidObjectPath"),
    }
}

#[test]
fn enum_field() {
    let mut core = DhiCore::new();
    core.add_field(String::from("status"), "enum:active,inactive", true).unwrap();
    assert!(!core.validate(&vobj(vec![("status", vstr("pending"))])));
    assert!(core.validate(&vobj(vec![("status", vstr("active"))])));
    assert!(core.validate(&vobj(vec![("status", vstr("inactive"))])));
    assert!(!core.validate(&vobj(vec![("status", vnum(1))])));
}

#[test]
fn batch_flat_preserves_order() {
    let mut core = DhiCore::new();
    core.add_field(String::from("name"), "string", true).unwrap();
    let items = vec![
        vobj(vec![("name", vstr("a"))]),
        vobj(vec![]),
        vobj(vec![("name", vstr("c"))]),
    ];
    assert_eq!(core.validate_batch(&items), vec![true, false, true]);
}

#[test]
fn batch_structured_matches_single_validation() {
    let mut core = DhiCore::new();
    core.add_field(String::from("tags"), "Array<string>", true).unwrap();
    let items = vec![
        vobj(vec![("tags", Value::VArr(vec![vstr("x")]))]),
        vobj(vec![("tags", Value::VArr(vec![vnum(1)]))]),
        vobj(vec![("tags", Value::VArr(vec![]))]),
        vstr("not an object"),
    ];
    let batch = core.validate_batch(&items);
    let single: Vec<bool> = items.iter().map(|v| core.validate(v)).collect();
    assert_eq!(batch, single);
    assert_eq!(batch, vec![true, false, true, false]);
}

#[test]
fn batch_flat_agrees_with_single_validation() {
    let mut core = DhiCore::new();
    core.add_field(String::from("a"), "string", true).unwrap();
    core.add_field(String::from("b"), "number", false).unwrap();
    core.add_field(String::from("c"), "boolean", true).unwrap();
    let items = vec![
        vobj(vec![("a", vstr("x")), ("c", Value::VBool(true))]),
        vobj(vec![("a", vstr("x")), ("b", vnum(1)), ("c", Value::VBool(false))]),
        vobj(vec![("a", vnum(1)), ("c", Value::VBool(true))]),
        vobj(vec![("a", vstr("x")), ("b", vstr("y")), ("c", Value::VBool(true))]),
        Value::VNull,
    ];
    let batch = core.validate_batch(&items);
    let single: Vec<bool> = items.iter().map(|v| core.validate(v)).collect();
    assert_eq!(batch, single);
    assert_eq!(batch, vec![true, true, false, false, false]);
}

#[test]
fn validate_is_idempotent() {
    let mut core = DhiCore::new();
    core.add_field(String::from("name"), "string", true).unwrap();
    let v = vobj(vec![("name", vstr("a"))]);
    let first = core.validate(&v);
    let second = core.validate(&v);
    assert_eq!(first, second);
    assert!(first);
    let w = vobj(vec![]);
    assert_eq!(core.validate(&w), core.validate(&w));
}

#[test]
fn custom_type_validation() {
    let mut core = DhiCore::new();
    core.define_custom_type(String::from("User"));
    core.add_field_to_custom_type(String::from("User"), String::from("id"), "number", true)
        .unwrap();
    core.add_field(String::from("user"), "User", true).unwrap();
    assert!(core.validate(&vobj(vec![("user", vobj(vec![("id", vnum(7))]))])));
    assert!(!core.validate(&vobj(vec![("user", vobj(vec![]))])));
    assert!(!core.validate(&vobj(vec![("user", vnum(7))])));
}

#[test]
fn custom_type_resolved_at_validation_time() {
    let mut core = DhiCore::new();
    core.define_custom_type(String::from("User"));
    // The field references the custom type while its schema is still empty;
    // the reference is resolved when validating, not when parsing.
    core.add_field(String::from("user"), "User", true).unwrap();
    assert!(core.validate(&vobj(vec![("user", vobj(vec![]))])));
    core.add_field_to_custom_type(String::from("User"), String::from("id"), "number", true)
        .unwrap();
    assert!(!core.validate(&vobj(vec![("user", vobj(vec![]))])));
    assert!(core.validate(&vobj(vec![("user", vobj(vec![("id", vnum(1))]))])));
}

#[test]
fn cursor_mutators_without_a_field_change_nothing() {
    let mut core = DhiCore::new();
    core.set_optional(true);
    core.set_nullable(false);
    core.set_value_type("number");
    assert!(core.validate(&vobj(vec![])));
}

#[test]
fn void_accepts_the_absent_sentinel() {
    let mut core = DhiCore::new();
    core.add_field(String::from("v"), "void", true).unwrap();
    assert!(core.validate(&vobj(vec![("v", Value::VUndef)])));
    assert!(!core.validate(&vobj(vec![("v", Value::VNull)])));
}

#[test]
fn define_custom_type_is_idempotent() {
    let mut core = DhiCore::new();
    core.define_custom_type(String::from("User"));
    core.define_custom_type(String::from("User"));
    core.add_field_to_custom_type(String::from("User"), String::from("id"), "number", true)
        .unwrap();
    core.add_field(String::from("user"), "User", true).unwrap();
    assert!(core.validate(&vobj(vec![("user", vobj(vec![("id", vnum(1))]))])));
}

#[test]
fn undefined_custom_type_error() {
    let mut core = DhiCore::new();
    match core.add_field_to_custom_type(String::from("Ghost"), String::from("x"), "string", true)
    {
        Err(SchemaError::UndefinedCustomType(name)) => assert_eq!(name, "Ghost"),
        _ => panic!("expected UndefinedCustomType"),
    }
}

#[test]
fn unsupported_type_error() {
    let mut core = DhiCore::new();
    match core.add_field(String::from("x"), "wibble", true) {
        Err(SchemaError::UnsupportedType(name)) => assert_eq!(name, "wibble"),
        _ => panic!("expected UnsupportedType"),
    }
    match core.add_field(String::from("x"), "Array<wobble>", true) {
        Err(SchemaError::UnsupportedType(name)) => assert_eq!(name, "wobble"),
        _ => panic!("expected UnsupportedType"),
    }
}

#[test]
fn overwriting_a_field_keeps_one_entry() {
    let mut core = DhiCore::new();
    core.add_field(String::from("x"), "string", true).unwrap();
    core.add_field(String::from("x"), "number", true).unwrap();
    assert!(core.validate(&vobj(vec![("x", vnum(1))])));
    assert!(!core.validate(&vobj(vec![("x", vstr("s"))])));
}

#[test]
fn set_optional_relaxes_last_field() {
    let mut core = DhiCore::new();
    core.add_field(String::from("name"), "string", true).unwrap();
    assert!(!core.validate(&vobj(vec![])));
    core.set_optional(true);
    assert!(core.validate(&vobj(vec![])));
    core.set_optional(false);
    assert!(!core.validate(&vobj(vec![])));
}

#[test]
fn set_nullable_behaves_as_set_optional() {
    let mut core = DhiCore::new();
    core.add_field(String::from("name"), "string", true).unwrap();
    core.set_nullable(true);
    assert!(core.validate(&vobj(vec![])));
}

#[test]
fn set_value_type_replaces_last_field_type() {
    let mut core = DhiCore::new();
    core.add_field(String::from("x"), "string", true).unwrap();
    core.set_value_type("number");
    assert!(core.validate(&vobj(vec![("x", vnum(30))])));
    assert!(!core.validate(&vobj(vec![("x", vstr("s"))])));
    core.set_value_type("anything-else");
    assert!(core.validate(&vobj(vec![("x", Value::VNull)])));
}

#[test]
fn batch_size_is_stored() {
    let mut core = DhiCore::new();
    assert_eq!(core.get_batch_size(), 1000);
    core.set_batch_size(5);
    assert_eq!(core.get_batch_size(), 5);
    core.set_debug(true);
    assert_eq!(core.get_batch_size(), 5);
}

#[test]
fn non_object_submission_is_rejected() {
    let core = DhiCore::new();
    assert!(!core.validate(&vstr("x")));
    assert!(!core.validate(&Value::VNull));
    assert!(core.validate(&vobj(vec![])));
}

#[test]
fn host_kind_fields() {
    let mut core = DhiCore::new();
    core.add_field(String::from("d"), "date", true).unwrap();
    core.add_field(String::from("b"), "bigint", true).unwrap();
    core.add_field(String::from("s"), "symbol", true).unwrap();
    core.add_field(String::from("n"), "null", true).unwrap();
    core.add_field(String::from("u"), "undefined", true).unwrap();
    let good = vobj(vec![
        ("d", Value::VDate),
        ("b", Value::VBigInt),
        ("s", Value::VSymbol),
        ("n", Value::VNull),
        ("u", Value::VUndef),
    ]);
    assert!(core.validate(&good));
    let bad = vobj(vec![
        ("d", Value::VNull),
        ("b", Value::VBigInt),
        ("s", Value::VSymbol),
        ("n", Value::VNull),
        ("u", Value::VUndef),
    ]);
    assert!(!core.validate(&bad));
}

#[test]
fn never_rejects_and_any_accepts() {
    let mut core = DhiCore::new();
    core.add_field(String::from("x"), "never", true).unwrap();
    assert!(!core.validate(&vobj(vec![("x", vnum(1))])));
    let mut open = DhiCore::new();
    open.add_field(String::from("x"), "any", true).unwrap();
    open.add_field(String::from("y"), "unknown", true).unwrap();
    assert!(open.validate(&vobj(vec![("x", Value::VDate), ("y", Value::VNull)])));
}

#[test]
fn array_and_list_forms_agree() {
    let mut a = DhiCore::new();
    a.add_field(String::from("xs"), "Array<number>", true).unwrap();
    let mut b = DhiCore::new();
    b.add_field(String::from("xs"), "List[number]", true).unwrap();
    let good = vobj(vec![("xs", Value::VArr(vec![vnum(1), vnum(2)]))]);
    let bad = vobj(vec![("xs", Value::VArr(vec![vnum(1), vstr("x")]))]);
    assert!(a.validate(&good) && b.validate(&good));
    assert!(!a.validate(&bad) && !b.validate(&bad));
}

#[test]
fn record_and_dict_forms_agree() {
    let mut a = DhiCore::new();
    a.add_field(String::from("m"), "Record<number>", true).unwrap();
    let mut b = DhiCore::new();
    b.add_field(String::from("m"), "Dict[number]", true).unwrap();
    let good = vobj(vec![("m", vobj(vec![("k1", vnum(1)), ("k2", vnum(2))]))]);
    let bad = vobj(vec![("m", vobj(vec![("k1", vnum(1)), ("k2", vstr("x"))]))]);
    assert!(a.validate(&good) && b.validate(&good));
    assert!(!a.validate(&bad) && !b.validate(&bad));
    assert!(!a.validate(&vobj(vec![("m", vnum(3))])));
}

#[test]
fn batch_larger_than_one_chunk() {
    let mut core = DhiCore::new();
    core.add_field(String::from("xs"), "Array<number>", true).unwrap();
    let mut items = Vec::new();
    for i in 0..10_001 {
        if i % 2 == 0 {
            items.push(vobj(vec![("xs", Value::VArr(vec![vnum(i)]))]));
        } else {
            items.push(vobj(vec![]));
        }
    }
    let verdicts = core.validate_batch(&items);
    assert_eq!(verdicts.len(), 10_001);
    for i in 0..10_001usize {
        assert_eq!(verdicts[i], i % 2 == 0);
    }
}

#[test]
fn empty_array_and_record_always_pass() {
    let mut core = DhiCore::new();
    core.add_field(String::from("xs"), "Array<never>", true).unwrap();
    core.add_field(String::from("m"), "Record<never>", true).unwrap();
    let v = vobj(vec![("xs", Value::VArr(vec![])), ("m", vobj(vec![]))]);
    assert!(core.validate(&v));
}
