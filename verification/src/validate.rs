//! The recursive-descent validator: what it means for a value to satisfy a
//! field type under a custom-type registry, and the executable checker that
//! decides it.
//!
//! Validation always terminates: every step into an object, array or custom
//! type consumes part of the value, so even a self-referential custom type
//! cannot recurse beyond the value's own depth.

use vstd::prelude::*;
use crate::constraints::check_constraints_num;
use crate::constraints::check_constraints_str;
use crate::constraints::num_cons_ok;
use crate::constraints::str_cons_ok;
use crate::schema::assoc_get;
use crate::schema::assoc_has;
use crate::schema::assoc_val;
use crate::schema::key_index;
use crate::schema::lemma_key_index;
use crate::schema::str_eq;
use crate::schema::FieldConstraints;
use crate::schema::FieldType;
use crate::schema::FieldValidator;
use crate::schema::Registry;
use crate::schema::Schema;
use crate::value::Value;

verus! {

/// Whether value `v` satisfies field type `ft` under constraints `cons` and
/// custom-type registry `reg`.
///
/// Constraints ride along the descent and act only on string and numeric
/// leaves. A custom-type reference that the registry does not know passes
/// silently, whatever the value.
pub open spec fn value_ok(
    reg: Seq<(String, Schema)>,
    ft: FieldType,
    cons: FieldConstraints,
    v: Value,
) -> bool
    decreases v, 0int,
{
    match ft {
        FieldType::StrTy => match v {
            Value::VStr(s) => str_cons_ok(cons, s@),
            _ => false,
        },
        FieldType::IntTy => match v {
            Value::VNum(n) => num_cons_ok(cons, n),
            _ => false,
        },
        FieldType::NumTy => match v {
            Value::VNum(n) => num_cons_ok(cons, n),
            _ => false,
        },
        FieldType::BoolTy => v is VBool,
        FieldType::ArrTy(t) => match v {
            Value::VArr(items) => forall|i: int|
                0 <= i < items@.len() ==> value_ok(reg, *t, cons, #[trigger] items@[i]),
            _ => false,
        },
        FieldType::ObjTy(schema) => match v {
            Value::VObj(fields) => fields_ok(reg, schema@, fields@),
            _ => false,
        },
        FieldType::RecTy(t) => match v {
            Value::VObj(fields) => forall|i: int|
                0 <= i < fields@.len() ==> value_ok(reg, *t, cons, (#[trigger] fields@[i]).1),
            _ => false,
        },
        FieldType::CustomTy(name) => {
            if assoc_has(reg, name@) {
                match v {
                    Value::VObj(fields) => fields_ok(reg, assoc_val(reg, name@)@, fields@),
                    _ => false,
                }
            } else {
                true
            }
        },
        FieldType::EnumTy(vals) => match v {
            Value::VStr(s) => exists|i: int|
                0 <= i < vals@.len() && (#[trigger] vals@[i])@ == s@,
            _ => false,
        },
        FieldType::AnyTy => true,
        FieldType::UnknownTy => true,
        FieldType::NeverTy => false,
        FieldType::VoidTy => v is VUndef,
        FieldType::NullTy => v is VNull,
        FieldType::UndefTy => v is VUndef,
        FieldType::DateTy => v is VDate,
        FieldType::BigIntTy => v is VBigInt,
        FieldType::SymbolTy => v is VSymbol,
    }
}

/// Whether the object made of `fields` satisfies every entry of `schema`.
pub open spec fn fields_ok(
    reg: Seq<(String, Schema)>,
    schema: Seq<(String, FieldValidator)>,
    fields: Seq<(String, Value)>,
) -> bool
    decreases fields, 2int,
{
    forall|i: int| 0 <= i < schema.len() ==> field_ok(reg, #[trigger] schema[i], fields)
}

/// Whether one schema entry is satisfied by the object made of `fields`:
/// a present field must satisfy the entry's type and constraints, an absent
/// one is allowed only if the entry is optional.
pub open spec fn field_ok(
    reg: Seq<(String, Schema)>,
    entry: (String, FieldValidator),
    fields: Seq<(String, Value)>,
) -> bool
    decreases fields, 1int,
    via field_ok_decreases
{
    if assoc_has(fields, entry.0@) {
        value_ok(reg, entry.1.field_type, entry.1.constraints, assoc_val(fields, entry.0@))
    } else {
        !entry.1.required
    }
}

#[via_fn]
proof fn field_ok_decreases(
    reg: Seq<(String, Schema)>,
    entry: (String, FieldValidator),
    fields: Seq<(String, Value)>,
) {
    lemma_key_index(fields, entry.0@);
}

/// Whether a root-level submission satisfies `schema`: it must be a keyed
/// object whose fields all check out.
pub open spec fn item_ok(
    reg: Seq<(String, Schema)>,
    schema: Seq<(String, FieldValidator)>,
    v: Value,
) -> bool {
    match v {
        Value::VObj(fields) => fields_ok(reg, schema, fields@),
        _ => false,
    }
}

/// Decides `value_ok`.
#[verifier::loop_isolation(false)]
pub fn check_value(reg: &Registry, ft: &FieldType, cons: &FieldConstraints, v: &Value) -> (r:
    bool)
    ensures
        r == value_ok(reg@, *ft, *cons, *v),
    decreases *v, 0int,
{
    match ft {
        FieldType::StrTy => match v {
            Value::VStr(s) => check_constraints_str(cons, s),
            _ => false,
        },
        FieldType::IntTy => match v {
            Value::VNum(n) => check_constraints_num(cons, *n),
            _ => false,
        },
        FieldType::NumTy => match v {
            Value::VNum(n) => check_constraints_num(cons, *n),
            _ => false,
        },
        FieldType::BoolTy => match v {
            Value::VBool(_) => true,
            _ => false,
        },
        FieldType::ArrTy(t) => match v {
            Value::VArr(items) => {
                let mut i: usize = 0;
                while i < items.len()
                    invariant
                        i <= items@.len(),
                        forall|j: int|
                            0 <= j < i ==> value_ok(reg@, **t, *cons, #[trigger] items@[j]),
                    decreases items@.len() - i,
                {
                    proof {
                        assert(decreases_to!(*v => items@));
                        assert(decreases_to!(items@ => items@[i as int]));
                        assert(decreases_to!(*v => items@[i as int]));
                    }
                    if !check_value(reg, &**t, cons, &items[i]) {
                        proof {
                            assert(!value_ok(reg@, **t, *cons, items@[i as int]));
                            assert(!value_ok(reg@, *ft, *cons, *v));
                        }
                        return false;
                    }
                    i += 1;
                }
                true
            },
            _ => false,
        },
        FieldType::ObjTy(schema) => match v {
            Value::VObj(fields) => {
                proof {
                    assert(decreases_to!(*v => fields@));
                }
                check_fields(reg, schema, fields)
            },
            _ => false,
        },
        FieldType::RecTy(t) => match v {
            Value::VObj(fields) => {
                let mut i: usize = 0;
                while i < fields.len()
                    invariant
                        i <= fields@.len(),
                        forall|j: int|
                            0 <= j < i ==> value_ok(reg@, **t, *cons, (#[trigger] fields@[j]).1),
                    decreases fields@.len() - i,
                {
                    proof {
                        assert(decreases_to!(*v => fields@));
                        assert(decreases_to!(fields@ => fields@[i as int]));
                        assert(decreases_to!(fields@[i as int] => fields@[i as int].1));
                        assert(decreases_to!(*v => fields@[i as int].1));
                    }
                    if !check_value(reg, &**t, cons, &fields[i].1) {
                        proof {
                            assert(!value_ok(reg@, **t, *cons, fields@[i as int].1));
                            assert(!value_ok(reg@, *ft, *cons, *v));
                        }
                        return false;
                    }
                    i += 1;
                }
                true
            },
            _ => false,
        },
        FieldType::CustomTy(name) => match assoc_get(reg, name.as_str()) {
            Some(schema) => match v {
                Value::VObj(fields) => {
                    proof {
                        assert(decreases_to!(*v => fields@));
                    }
                    check_fields(reg, schema, fields)
                },
                _ => false,
            },
            None => true,
        },
        FieldType::EnumTy(vals) => match v {
            Value::VStr(s) => {
                let mut i: usize = 0;
                while i < vals.len()
                    invariant
                        i <= vals@.len(),
                        forall|j: int| 0 <= j < i ==> (#[trigger] vals@[j])@ != s@,
                    decreases vals@.len() - i,
                {
                    if str_eq(vals[i].as_str(), s.as_str()) {
                        proof {
                            assert((vals@[i as int])@ == s@);
                        }
                        return true;
                    }
                    i += 1;
                }
                false
            },
            _ => false,
        },
        FieldType::AnyTy => true,
        FieldType::UnknownTy => true,
        FieldType::NeverTy => false,
        FieldType::VoidTy => match v {
            Value::VUndef => true,
            _ => false,
        },
        FieldType::NullTy => match v {
            Value::VNull => true,
            _ => false,
        },
        FieldType::UndefTy => match v {
            Value::VUndef => true,
            _ => false,
        },
        FieldType::DateTy => match v {
            Value::VDate => true,
            _ => false,
        },
        FieldType::BigIntTy => match v {
            Value::VBigInt => true,
            _ => false,
        },
        FieldType::SymbolTy => match v {
            Value::VSymbol => true,
            _ => false,
        },
    }
}

/// Decides `fields_ok`.
#[verifier::loop_isolation(false)]
pub fn check_fields(reg: &Registry, schema: &Schema, fields: &Vec<(String, Value)>) -> (r: bool)
    ensures
        r == fields_ok(reg@, schema@, fields@),
    decreases fields@, 1int,
{
    let mut i: usize = 0;
    while i < schema.len()
        invariant
            i <= schema@.len(),
            forall|j: int| 0 <= j < i ==> #[trigger] field_ok(reg@, schema@[j], fields@),
        decreases schema@.len() - i,
    {
        match assoc_get(fields, schema[i].0.as_str()) {
            Some(val) => {
                proof {
                    lemma_key_index(fields@, schema@[i as int].0@);
                    assert(*val == fields@[key_index(fields@, schema@[i as int].0@)].1);
                    assert(decreases_to!(fields@ => *val));
                }
                if !check_value(reg, &schema[i].1.field_type, &schema[i].1.constraints, val) {
                    proof {
                        assert(!field_ok(reg@, schema@[i as int], fields@));
                        assert(!fields_ok(reg@, schema@, fields@));
                    }
                    return false;
                }
            },
            None => {
                if schema[i].1.required {
                    proof {
                        assert(!field_ok(reg@, schema@[i as int], fields@));
                        assert(!fields_ok(reg@, schema@, fields@));
                    }
                    return false;
                }
            },
        }
        proof {
            assert(field_ok(reg@, schema@[i as int], fields@));
        }
        i += 1;
    }
    proof {
        assert forall|j: int| 0 <= j < schema@.len() implies field_ok(
            reg@,
            #[trigger] schema@[j],
            fields@,
        ) by {
            assert(field_ok(reg@, schema@[j], fields@));
        }
    }
    true
}

/// Decides `item_ok`.
pub fn check_item(reg: &Registry, schema: &Schema, v: &Value) -> (r: bool)
    ensures
        r == item_ok(reg@, schema@, *v),
{
    match v {
        Value::VObj(fields) => check_fields(reg, schema, fields),
        _ => false,
    }
}

/// A field type the flat batch path can check directly.
pub open spec fn is_primitive_type(ft: FieldType) -> bool {
    ||| ft == FieldType::StrTy
    ||| ft == FieldType::IntTy
    ||| ft == FieldType::NumTy
    ||| ft == FieldType::BoolTy
}

/// Every field of the schema has a primitive type.
pub open spec fn flat_schema(schema: Seq<(String, FieldValidator)>) -> bool {
    forall|i: int|
        0 <= i < schema.len() ==> is_primitive_type((#[trigger] schema[i]).1.field_type)
}

/// Validity of a value against a primitive field type: a direct kind check
/// plus the applicable constraints, with no recursion and no registry.
pub open spec fn prim_ok(ft: FieldType, cons: FieldConstraints, v: Value) -> bool {
    match ft {
        FieldType::StrTy => match v {
            Value::VStr(s) => str_cons_ok(cons, s@),
            _ => false,
        },
        FieldType::IntTy => match v {
            Value::VNum(n) => num_cons_ok(cons, n),
            _ => false,
        },
        FieldType::NumTy => match v {
            Value::VNum(n) => num_cons_ok(cons, n),
            _ => false,
        },
        FieldType::BoolTy => v is VBool,
        _ => false,
    }
}

/// The flat path's verdict on one schema entry.
pub open spec fn flat_field_ok(
    entry: (String, FieldValidator),
    fields: Seq<(String, Value)>,
) -> bool {
    if assoc_has(fields, entry.0@) {
        prim_ok(entry.1.field_type, entry.1.constraints, assoc_val(fields, entry.0@))
    } else {
        !entry.1.required
    }
}

/// The flat path's verdict on one submitted value.
pub open spec fn flat_item_ok(schema: Seq<(String, FieldValidator)>, v: Value) -> bool {
    match v {
        Value::VObj(fields) => forall|i: int|
            0 <= i < schema.len() ==> flat_field_ok(#[trigger] schema[i], fields@),
        _ => false,
    }
}

/// On a schema whose fields are all primitive, the flat fast path and the
/// general recursive validator agree on every value, whatever the registry.
pub proof fn lemma_flat_item(
    reg: Seq<(String, Schema)>,
    schema: Seq<(String, FieldValidator)>,
    v: Value,
)
    requires
        flat_schema(schema),
    ensures
        flat_item_ok(schema, v) == item_ok(reg, schema, v),
{
    match v {
        Value::VObj(fields) => {
            assert forall|i: int| 0 <= i < schema.len() implies flat_field_ok(
                schema[i],
                fields@,
            ) == field_ok(reg, #[trigger] schema[i], fields@) by {
                assert(is_primitive_type(schema[i].1.field_type));
            }
            if fields_ok(reg, schema, fields@) {
                assert forall|i: int| 0 <= i < schema.len() implies flat_field_ok(
                    #[trigger] schema[i],
                    fields@,
                ) by {
                    assert(field_ok(reg, schema[i], fields@));
                }
            }
            if flat_item_ok(schema, v) {
                assert forall|i: int| 0 <= i < schema.len() implies field_ok(
                    reg,
                    #[trigger] schema[i],
                    fields@,
                ) by {
                    assert(flat_field_ok(schema[i], fields@));
                }
            }
        },
        _ => {},
    }
}

/// Decides `flat_item_ok`.
#[verifier::loop_isolation(false)]
pub fn check_item_flat(schema: &Schema, v: &Value) -> (r: bool)
    ensures
        r == flat_item_ok(schema@, *v),
{
    match v {
        Value::VObj(fields) => {
            let mut i: usize = 0;
            while i < schema.len()
                invariant
                    i <= schema@.len(),
                    forall|j: int| 0 <= j < i ==> flat_field_ok(#[trigger] schema@[j], fields@),
                decreases schema@.len() - i,
            {
                match assoc_get(fields, schema[i].0.as_str()) {
                    None => {
                        if schema[i].1.required {
                            proof {
                                assert(!flat_field_ok(schema@[i as int], fields@));
                            }
                            return false;
                        }
                    },
                    Some(val) => {
                        let ok = match &schema[i].1.field_type {
                            FieldType::StrTy => match val {
                                Value::VStr(s) => check_constraints_str(
                                    &schema[i].1.constraints,
                                    s,
                                ),
                                _ => false,
                            },
                            FieldType::IntTy => match val {
                                Value::VNum(n) => check_constraints_num(
                                    &schema[i].1.constraints,
                                    *n,
                                ),
                                _ => false,
                            },
                            FieldType::NumTy => match val {
                                Value::VNum(n) => check_constraints_num(
                                    &schema[i].1.constraints,
                                    *n,
                                ),
                                _ => false,
                            },
                            FieldType::BoolTy => match val {
                                Value::VBool(_) => true,
                                _ => false,
                            },
                            _ => false,
                        };
                        if !ok {
                            proof {
                                assert(!flat_field_ok(schema@[i as int], fields@));
                            }
                            return false;
                        }
                    },
                }
                proof {
                    assert(flat_field_ok(schema@[i as int], fields@));
                }
                i += 1;
            }
            proof {
                assert forall|j: int| 0 <= j < schema@.len() implies flat_field_ok(
                    #[trigger] schema@[j],
                    fields@,
                ) by {
                    assert(flat_field_ok(schema@[j], fields@));
                }
            }
            true
        },
        _ => false,
    }
}

/// Decides `flat_schema`.
pub fn schema_is_flat(schema: &Schema) -> (r: bool)
    ensures
        r == flat_schema(schema@),
{
    let mut i: usize = 0;
    while i < schema.len()
        invariant
            i <= schema@.len(),
            forall|j: int|
                0 <= j < i ==> is_primitive_type((#[trigger] schema@[j]).1.field_type),
        decreases schema@.len() - i,
    {
        let prim = match &schema[i].1.field_type {
            FieldType::StrTy => true,
            FieldType::IntTy => true,
            FieldType::NumTy => true,
            FieldType::BoolTy => true,
            _ => false,
        };
        if !prim {
            proof {
                assert(!is_primitive_type(schema@[i as int].1.field_type));
            }
            return false;
        }
        i += 1;
    }
    true
}

} // verus!
