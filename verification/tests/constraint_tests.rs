use dhi::engine::DhiCore;
use dhi::parse::parse_field_type;
use dhi::parse::render;
use dhi::schema::FieldConstraints;
use dhi::schema::FieldType;
use dhi::schema::FieldValidator;
use dhi::validate::check_value;
use dhi::value::Value;

fn vstr(s: &str) -> Value {
    Value::VStr(String::from(s))
}

fn vnum(n: i64) -> Value {
    Value::VNum(n)
}

fn vobj(fields: Vec<(&str, Value)>) -> Value {
    Value::VObj(fields.into_iter().map(|(k, v)| (String::from(k), v)).collect())
}

fn cons() -> FieldConstraints {
    FieldConstraints::none()
}

fn string_field(name: &str, required: bool, constraints: FieldConstraints) -> (String, FieldValidator) {
    (
        String::from(name),
        FieldValidator { field_type: FieldType::StrTy, required, constraints },
    )
}

#[test]
fn length_constraints_count_utf8_bytes() {
    let mut core = DhiCore::new();
    let mut c = cons();
    c.min_length = Some(2);
    c.max_length = Some(4);
    core.schema.push(string_field("s", true, c));
    assert!(!core.validate(&vobj(vec![("s", vstr("a"))])));
    assert!(core.validate(&vobj(vec![("s", vstr("ab"))])));
    assert!(core.validate(&vobj(vec![("s", vstr("abcd"))])));
    assert!(!core.validate(&vobj(vec![("s", vstr("abcde"))])));
    // One accented character occupies two UTF-8 bytes.
    assert!(core.validate(&vobj(vec![("s", vstr("é"))])));
}

#[test]
fn numeric_bounds() {
    let mut core = DhiCore::new();
    let mut c = cons();
    c.min_value = Some(0);
    c.max_value = Some(10);
    core.schema.push((
        String::from("n"),
        FieldValidator { field_type: FieldType::NumTy, required: true, constraints: c },
    ));
    assert!(!core.validate(&vobj(vec![("n", vnum(-1))])));
    assert!(core.validate(&vobj(vec![("n", vnum(0))])));
    assert!(core.validate(&vobj(vec![("n", vnum(10))])));
    assert!(!core.validate(&vobj(vec![("n", vnum(11))])));
}

#[test]
fn email_constraint() {
    let mut core = DhiCore::new();
    let mut c = cons();
    c.email = true;
    core.schema.push(string_field("email", true, c));
    assert!(core.validate(&vobj(vec![("email", vstr("a@b.com"))])));
    assert!(!core.validate(&vobj(vec![("email", vstr("not-an-email"))])));
    assert!(!core.validate(&vobj(vec![("email", vstr("a@@b.com"))])));
    assert!(!core.validate(&vobj(vec![("email", vstr("@b.com"))])));
    assert!(!core.validate(&vobj(vec![("email", vstr("a@"))])));
    assert!(!core.validate(&vobj(vec![("email", vstr("a@bcom"))])));
}

#[test]
fn url_constraint() {
    let mut core = DhiCore::new();
    let mut c = cons();
    c.url = true;
    core.schema.push(string_field("link", true, c));
    assert!(core.validate(&vobj(vec![("link", vstr("http://x"))])));
    assert!(core.validate(&vobj(vec![("link", vstr("https://example.com"))])));
    assert!(!core.validate(&vobj(vec![("link", vstr("ftp://x"))])));
    assert!(!core.validate(&vobj(vec![("link", vstr("http:/x"))])));
}

#[test]
fn pattern_is_substring_containment() {
    let mut core = DhiCore::new();
    let mut c = cons();
    c.pattern = Some(String::from("abc"));
    core.schema.push(string_field("s", true, c));
    assert!(core.validate(&vobj(vec![("s", vstr("xxabcyy"))])));
    assert!(core.validate(&vobj(vec![("s", vstr("abc"))])));
    assert!(!core.validate(&vobj(vec![("s", vstr("ab"))])));
    assert!(!core.validate(&vobj(vec![("s", vstr("a.c"))])));
}

#[test]
fn constraints_ignored_on_other_kinds() {
    let mut core = DhiCore::new();
    let mut c = cons();
    c.min_length = Some(100);
    core.schema.push((
        String::from("b"),
        FieldValidator { field_type: FieldType::BoolTy, required: true, constraints: c },
    ));
    assert!(core.validate(&vobj(vec![("b", Value::VBool(true))])));
}

#[test]
fn custom_type_with_email_constraint() {
    let mut c = cons();
    c.email = true;
    let user_schema = vec![string_field("email", true, c)];
    let reg = vec![(String::from("User"), user_schema)];
    let ft = FieldType::CustomTy(String::from("User"));
    let good = vobj(vec![("email", vstr("a@b.com"))]);
    let bad = vobj(vec![("email", vstr("not-an-email"))]);
    assert!(check_value(&reg, &ft, &cons(), &good));
    assert!(!check_value(&reg, &ft, &cons(), &bad));
}

#[test]
fn unknown_custom_reference_passes_silently() {
    let reg = vec![];
    let ft = FieldType::CustomTy(String::from("Ghost"));
    assert!(check_value(&reg, &ft, &cons(), &vnum(3)));
    assert!(check_value(&reg, &ft, &cons(), &vobj(vec![])));
}

#[test]
fn parse_round_trip_keeps_nesting() {
    let reg = vec![];
    let ft = parse_field_type(&reg, "Array<Array<number>>").unwrap();
    match &ft {
        FieldType::ArrTy(inner) => match &**inner {
            FieldType::ArrTy(leaf) => match &**leaf {
                FieldType::NumTy => {},
                _ => panic!("innermost type should be number"),
            },
            _ => panic!("inner type should be an array"),
        },
        _ => panic!("outer type should be an array"),
    }
    assert_eq!(render(&ft), "Array<Array<number>>");
}

#[test]
fn render_collapses_aliases() {
    let reg = vec![];
    assert_eq!(render(&parse_field_type(&reg, "str").unwrap()), "string");
    assert_eq!(render(&parse_field_type(&reg, "email").unwrap()), "string");
    assert_eq!(render(&parse_field_type(&reg, "int").unwrap()), "integer");
    assert_eq!(render(&parse_field_type(&reg, "float").unwrap()), "number");
    assert_eq!(render(&parse_field_type(&reg, "bool").unwrap()), "boolean");
    assert_eq!(render(&parse_field_type(&reg, "uuid").unwrap()), "string");
    assert_eq!(render(&parse_field_type(&reg, "date-time").unwrap()), "string");
    assert_eq!(render(&parse_field_type(&reg, "List[str]").unwrap()), "Array<string>");
    assert_eq!(render(&parse_field_type(&reg, "Dict[int]").unwrap()), "Record<integer>");
}

#[test]
fn parse_enum_values() {
    let reg = vec![];
    let ft = parse_field_type(&reg, "enum:a,b,c").unwrap();
    match &ft {
        FieldType::EnumTy(vals) => {
            assert_eq!(vals.len(), 3);
            assert_eq!(vals[0], "a");
            assert_eq!(vals[1], "b");
            assert_eq!(vals[2], "c");
        },
        _ => panic!("expected an enum type"),
    }
    assert_eq!(render(&ft), "enum:a,b,c");
}

#[test]
fn integer_and_number_accept_numeric_values() {
    let mut core = DhiCore::new();
    core.add_field(String::from("i"), "integer", true).unwrap();
    core.add_field(String::from("n"), "number", true).unwrap();
    assert!(core.validate(&vobj(vec![("i", vnum(3)), ("n", vnum(4))])));
    assert!(!core.validate(&vobj(vec![("i", vstr("3")), ("n", vnum(4))])));
}

#[test]
fn unparsable_composite_falls_through_to_custom_lookup() {
    let mut core = DhiCore::new();
    // An unbalanced composite is not a composite; with no such custom type
    // registered it is unsupported.
    assert!(core.add_field(String::from("x"), "Array<number", true).is_err());
}

#[test]
fn parse_object_and_record_keywords() {
    let mut core = DhiCore::new();
    core.add_field(String::from("o"), "object", true).unwrap();
    core.add_field(String::from("r"), "record", true).unwrap();
    // A bare object keyword carries an empty inline schema: every object passes.
    assert!(core.validate(
        &vobj(vec![("o", vobj(vec![("x", vnum(1))])), ("r", vobj(vec![("y", vstr("s"))]))]),
    ));
    assert!(!core.validate(&vobj(vec![("o", vnum(1)), ("r", vobj(vec![]))])));
}
