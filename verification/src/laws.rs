//! Global laws of the engine, stated and proved once: determinism of
//! validation, the effect of required and optional fields, agreement of the
//! flat and recursive batch strategies, emptiness of arrays and records, and
//! the parse/render round trip.

use vstd::prelude::*;
use crate::engine::DhiCore;
use crate::parse::composite_inner;
use crate::parse::has_prefix;
use crate::parse::is_composite;
use crate::parse::is_keyword;
use crate::parse::parseable;
use crate::parse::parses_to;
use crate::parse::render_seq;
use crate::schema::assoc_has;
use crate::schema::FieldConstraints;
use crate::schema::FieldType;
use crate::schema::FieldValidator;
use crate::schema::Schema;
use crate::validate::field_ok;
use crate::validate::fields_ok;
use crate::validate::item_ok;
use crate::validate::value_ok;
use crate::value::Value;

verus! {

/// Validation is deterministic and idempotent: under one engine state, any
/// two verdicts on the same value (as `DhiCore::validate` specifies them)
/// are the same verdict.
pub proof fn lemma_validate_deterministic(core: DhiCore, v: Value, r1: bool, r2: bool)
    requires
        r1 == item_ok(core.custom_types@, core.schema@, v),
        r2 == item_ok(core.custom_types@, core.schema@, v),
    ensures
        r1 == r2,
{
}

/// An object that lacks a required field of the schema is rejected, whatever
/// else it holds.
pub proof fn lemma_missing_required(
    reg: Seq<(String, Schema)>,
    schema: Seq<(String, FieldValidator)>,
    v: Value,
    i: int,
)
    requires
        0 <= i < schema.len(),
        schema[i].1.required,
        match v {
            Value::VObj(fields) => !assoc_has(fields@, schema[i].0@),
            _ => true,
        },
    ensures
        !item_ok(reg, schema, v),
{
    match v {
        Value::VObj(fields) => {
            assert(!field_ok(reg, schema[i], fields@));
        },
        _ => {},
    }
}

/// An object that lacks an optional field is judged the same with or
/// without that field's schema entry.
pub proof fn lemma_optional_absent(
    reg: Seq<(String, Schema)>,
    schema: Seq<(String, FieldValidator)>,
    i: int,
    v: Value,
)
    requires
        0 <= i < schema.len(),
        !schema[i].1.required,
        match v {
            Value::VObj(fields) => !assoc_has(fields@, schema[i].0@),
            _ => true,
        },
    ensures
        item_ok(reg, schema, v) == item_ok(reg, schema.remove(i), v),
{
    match v {
        Value::VObj(fields) => {
            let shorter = schema.remove(i);
            if fields_ok(reg, schema, fields@) {
                assert forall|j: int| 0 <= j < shorter.len() implies field_ok(
                    reg,
                    #[trigger] shorter[j],
                    fields@,
                ) by {
                    if j < i {
                        assert(shorter[j] == schema[j]);
                        assert(field_ok(reg, schema[j], fields@));
                    } else {
                        assert(shorter[j] == schema[j + 1]);
                        assert(field_ok(reg, schema[j + 1], fields@));
                    }
                }
            }
            if fields_ok(reg, shorter, fields@) {
                assert forall|j: int| 0 <= j < schema.len() implies field_ok(
                    reg,
                    #[trigger] schema[j],
                    fields@,
                ) by {
                    if j < i {
                        assert(schema[j] == shorter[j]);
                        assert(field_ok(reg, shorter[j], fields@));
                    } else if j == i {
                        assert(!assoc_has(fields@, schema[i].0@));
                    } else {
                        assert(schema[j] == shorter[j - 1]);
                        assert(field_ok(reg, shorter[j - 1], fields@));
                    }
                }
            }
        },
        _ => {},
    }
}

/// Array validation over an empty sequence passes, whatever the element type
/// and constraints.
pub proof fn lemma_empty_array(
    reg: Seq<(String, Schema)>,
    ft: FieldType,
    cons: FieldConstraints,
    v: Value,
)
    requires
        ft is ArrTy,
        match v {
            Value::VArr(items) => items@.len() == 0,
            _ => false,
        },
    ensures
        value_ok(reg, ft, cons, v),
{
}

/// Record validation over an empty map passes, whatever the value type and
/// constraints.
pub proof fn lemma_empty_record(
    reg: Seq<(String, Schema)>,
    ft: FieldType,
    cons: FieldConstraints,
    v: Value,
)
    requires
        ft is RecTy,
        match v {
            Value::VObj(fields) => fields@.len() == 0,
            _ => false,
        },
    ensures
        value_ok(reg, ft, cons, v),
{
}

/// Field types made of scalar primitives, arrays and records: the fragment
/// whose canonical rendering parses back to the type itself.
pub open spec fn canonical_simple(ft: FieldType) -> bool
    decreases ft,
{
    match ft {
        FieldType::ArrTy(t) => canonical_simple(*t),
        FieldType::RecTy(t) => canonical_simple(*t),
        FieldType::ObjTy(_) => false,
        FieldType::CustomTy(_) => false,
        FieldType::EnumTy(_) => false,
        _ => true,
    }
}

/// Rendering a type and parsing the result gives the type back, under any
/// registry, for every type in the scalar/array/record fragment.
pub proof fn lemma_parse_render_roundtrip(reg: Seq<(String, Schema)>, ft: FieldType)
    requires
        canonical_simple(ft),
    ensures
        parseable(render_seq(ft), reg),
        parses_to(render_seq(ft), reg, ft),
    decreases ft,
{
    reveal_strlit("str");
    reveal_strlit("string");
    reveal_strlit("email");
    reveal_strlit("url");
    reveal_strlit("uuid");
    reveal_strlit("date-time");
    reveal_strlit("int");
    reveal_strlit("integer");
    reveal_strlit("float");
    reveal_strlit("number");
    reveal_strlit("bool");
    reveal_strlit("boolean");
    reveal_strlit("any");
    reveal_strlit("object");
    reveal_strlit("record");
    reveal_strlit("date");
    reveal_strlit("bigint");
    reveal_strlit("symbol");
    reveal_strlit("undefined");
    reveal_strlit("null");
    reveal_strlit("void");
    reveal_strlit("unknown");
    reveal_strlit("never");
    reveal_strlit("enum:");
    reveal_strlit("Array<");
    reveal_strlit("List[");
    reveal_strlit("Record<");
    reveal_strlit("Dict[");
    reveal_strlit(">");
    let r = render_seq(ft);
    match ft {
        FieldType::ArrTy(t) => {
            lemma_parse_render_roundtrip(reg, *t);
            let inner = render_seq(*t);
            assert(r == "Array<"@ + inner + ">"@);
            assert(r[0] == 'A');
            assert(!is_keyword(r));
            assert(!has_prefix(r, "enum:"@)) by {
                if has_prefix(r, "enum:"@) {
                    assert(r.subrange(0, 5)[0] == r[0]);
                }
            }
            assert(r.subrange(0, 6) =~= "Array<"@);
            assert(r[r.len() - 1] == '>');
            assert(is_composite(r, "Array<"@, '>'));
            assert(composite_inner(r, "Array<"@) =~= inner);
            assert(parses_to(composite_inner(r, "Array<"@), reg, *t));
            assert(parses_to(r, reg, ft));
        },
        FieldType::RecTy(t) => {
            lemma_parse_render_roundtrip(reg, *t);
            let inner = render_seq(*t);
            assert(r == "Record<"@ + inner + ">"@);
            assert(r[0] == 'R');
            assert(!is_keyword(r));
            assert(!has_prefix(r, "enum:"@)) by {
                if has_prefix(r, "enum:"@) {
                    assert(r.subrange(0, 5)[0] == r[0]);
                }
            }
            assert(!is_composite(r, "Array<"@, '>')) by {
                if has_prefix(r, "Array<"@) {
                    assert(r.subrange(0, 6)[0] == r[0]);
                }
            }
            assert(!is_composite(r, "List["@, ']')) by {
                if has_prefix(r, "List["@) {
                    assert(r.subrange(0, 5)[0] == r[0]);
                }
            }
            assert(r.subrange(0, 7) =~= "Record<"@);
            assert(r[r.len() - 1] == '>');
            assert(is_composite(r, "Record<"@, '>'));
            assert(composite_inner(r, "Record<"@) =~= inner);
        },
        _ => {
            assert("str"@[0] == 's');
            assert("string"@[0] == 's');
            assert("string"@[1] == 't');
            assert("email"@[0] == 'e');
            assert("url"@[0] == 'u');
            assert("uuid"@[0] == 'u');
            assert("date-time"@[0] == 'd');
            assert("int"@[0] == 'i');
            assert("integer"@[0] == 'i');
            assert("float"@[0] == 'f');
            assert("number"@[0] == 'n');
            assert("bool"@[0] == 'b');
            assert("boolean"@[0] == 'b');
            assert("any"@[0] == 'a');
            assert("object"@[0] == 'o');
            assert("record"@[0] == 'r');
            assert("date"@[0] == 'd');
            assert("bigint"@[0] == 'b');
            assert("symbol"@[0] == 's');
            assert("symbol"@[1] == 'y');
            assert("undefined"@[0] == 'u');
            assert("null"@[0] == 'n');
            assert("void"@[0] == 'v');
            assert("unknown"@[0] == 'u');
            assert("never"@[0] == 'n');
            assert(!has_prefix(r, "enum:"@)) by {
                if has_prefix(r, "enum:"@) {
                    assert(r.subrange(0, 5)[0] == r[0]);
                    assert(r.subrange(0, 5)[1] == r[1]);
                }
            }
            assert(!has_prefix(r, "Array<"@)) by {
                if has_prefix(r, "Array<"@) {
                    assert(r.subrange(0, 6)[0] == r[0]);
                }
            }
            assert(!has_prefix(r, "List["@)) by {
                if has_prefix(r, "List["@) {
                    assert(r.subrange(0, 5)[0] == r[0]);
                }
            }
            assert(!has_prefix(r, "Record<"@)) by {
                if has_prefix(r, "Record<"@) {
                    assert(r.subrange(0, 7)[0] == r[0]);
                }
            }
            assert(!has_prefix(r, "Dict["@)) by {
                if has_prefix(r, "Dict["@) {
                    assert(r.subrange(0, 5)[0] == r[0]);
                }
            }
            match ft {
                FieldType::StrTy => assert(parses_to(r, reg, ft)),
                FieldType::IntTy => assert(parses_to(r, reg, ft)),
                FieldType::NumTy => assert(parses_to(r, reg, ft)),
                FieldType::BoolTy => assert(parses_to(r, reg, ft)),
                FieldType::AnyTy => assert(parses_to(r, reg, ft)),
                FieldType::UnknownTy => assert(parses_to(r, reg, ft)),
                FieldType::NeverTy => assert(parses_to(r, reg, ft)),
                FieldType::VoidTy => assert(parses_to(r, reg, ft)),
                FieldType::NullTy => assert(parses_to(r, reg, ft)),
                FieldType::UndefTy => assert(parses_to(r, reg, ft)),
                FieldType::DateTy => assert(parses_to(r, reg, ft)),
                FieldType::BigIntTy => assert(parses_to(r, reg, ft)),
                FieldType::SymbolTy => assert(parses_to(r, reg, ft)),
                _ => assert(false),
            }
        },
    }
}

} // verus!
