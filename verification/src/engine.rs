//! The engine: an insertion-ordered root schema plus the custom-type
//! registry, built incrementally and then used read-only by the validator.

use vstd::prelude::*;
use crate::parse::parse_field_type;
use crate::parse::parseable;
use crate::parse::parses_to;
use crate::parse::split_char;
use crate::parse::split_char_exec;
use crate::parse::unsupported_part;
use crate::parse::views_of;
use crate::schema::assoc_get;
use crate::schema::assoc_has;
use crate::schema::assoc_set;
use crate::schema::assoc_upsert;
use crate::schema::find_key;
use crate::schema::key_index;
use crate::schema::lemma_key_index;
use crate::schema::lemma_key_index_at;
use crate::schema::FieldConstraints;
use crate::schema::FieldType;
use crate::schema::FieldValidator;
use crate::schema::Registry;
use crate::schema::Schema;
use crate::schema::SchemaError;
use crate::validate::check_item;
use crate::validate::check_item_flat;
use crate::validate::item_ok;
use crate::validate::lemma_flat_item;
use crate::validate::schema_is_flat;
use crate::value::Value;

verus! {

/// The schema-description and value-validation engine.
///
/// The root schema and the custom-type registry are association lists, which
/// keeps field insertion order: the "last inserted" cursor that
/// [`DhiCore::set_optional`] and friends act on is tracked explicitly in
/// `last_field`.
pub struct DhiCore {
    /// The root schema: field name to validator, in insertion order.
    pub schema: Schema,
    /// The custom-type registry: type name to its schema.
    pub custom_types: Registry,
    /// A stored batch-size configuration value; `validate_batch` chunks by a
    /// fixed engine-wide constant instead, so this value does not affect it.
    pub batch_size: i32,
    /// A debugging flag with no effect on validation.
    pub debug: bool,
    /// The position in `schema` of the most recently inserted root field.
    pub last_field: Option<usize>,
}

/// The scalar type that `set_value_type` writes for the given type name.
pub open spec fn scalar_override(s: Seq<char>) -> FieldType {
    if s == "string"@ {
        FieldType::StrTy
    } else if s == "number"@ {
        FieldType::NumTy
    } else if s == "boolean"@ {
        FieldType::BoolTy
    } else {
        FieldType::AnyTy
    }
}

/// The root schema after flipping the cursor field's required flag to `req`:
/// with a cursor in bounds only that flag changes, otherwise nothing does.
pub open spec fn cursor_update_ok(before: DhiCore, after: DhiCore, req: bool) -> bool {
    match before.last_field {
        Some(i) => if (i as int) < before.schema@.len() {
            after.schema@ == before.schema@.update(
                i as int,
                (
                    before.schema@[i as int].0,
                    FieldValidator {
                        field_type: before.schema@[i as int].1.field_type,
                        required: req,
                        constraints: before.schema@[i as int].1.constraints,
                    },
                ),
            )
        } else {
            after.schema == before.schema
        },
        None => after.schema == before.schema,
    }
}

/// The root schema after replacing the cursor field's type with `nt`:
/// with a cursor in bounds only the type changes, otherwise nothing does.
pub open spec fn cursor_retype_ok(before: DhiCore, after: DhiCore, nt: FieldType) -> bool {
    match before.last_field {
        Some(i) => if (i as int) < before.schema@.len() {
            after.schema@ == before.schema@.update(
                i as int,
                (
                    before.schema@[i as int].0,
                    FieldValidator {
                        field_type: nt,
                        required: before.schema@[i as int].1.required,
                        constraints: before.schema@[i as int].1.constraints,
                    },
                ),
            )
        } else {
            after.schema == before.schema
        },
        None => after.schema == before.schema,
    }
}

/// The path segments of a nested-field path: empty for the empty path,
/// otherwise the dot-separated parts.
pub open spec fn nested_parts(p: Seq<char>) -> Seq<Seq<char>> {
    if p.len() == 0 {
        Seq::empty()
    } else {
        split_char(p, '.')
    }
}

/// Whether `parts[i..]` names a chain of object fields through `schema`.
pub open spec fn path_ok(
    schema: Seq<(String, FieldValidator)>,
    parts: Seq<Seq<char>>,
    i: int,
) -> bool
    decreases parts.len() - i,
{
    i >= parts.len() || {
        &&& assoc_has(schema, parts[i])
        &&& match schema[key_index(schema, parts[i])].1.field_type {
            FieldType::ObjTy(inner) => path_ok(inner@, parts, i + 1),
            _ => false,
        }
    }
}

/// How a schema changes when `field` is inserted at the end of the path
/// `parts[i..]`: along the path only the named object field's inline schema
/// changes; at the end of the path the field is inserted or overwritten.
pub open spec fn nested_rel(
    before: Seq<(String, FieldValidator)>,
    after: Seq<(String, FieldValidator)>,
    parts: Seq<Seq<char>>,
    i: int,
    field: String,
    fv: FieldValidator,
) -> bool
    decreases parts.len() - i,
{
    if i >= parts.len() {
        after == assoc_upsert(before, field, fv)
    } else {
        &&& assoc_has(before, parts[i])
        &&& {
            let j = key_index(before, parts[i]);
            &&& after.len() == before.len()
            &&& forall|k: int| 0 <= k < before.len() && k != j ==> after[k] == before[k]
            &&& after[j].0 == before[j].0
            &&& after[j].1.required == before[j].1.required
            &&& after[j].1.constraints == before[j].1.constraints
            &&& match (before[j].1.field_type, after[j].1.field_type) {
                (FieldType::ObjTy(bi), FieldType::ObjTy(ai)) => nested_rel(
                    bi@,
                    ai@,
                    parts,
                    i + 1,
                    field,
                    fv,
                ),
                _ => false,
            }
        }
    }
}

/// Walks `parts[i..]` through `schema` without changing it.
fn path_exists(schema: &Vec<(String, FieldValidator)>, parts: &Vec<String>, i: usize) -> (r:
    bool)
    requires
        i <= parts@.len(),
    ensures
        r == path_ok(schema@, views_of(parts@), i as int),
    decreases parts@.len() - i,
{
    if i == parts.len() {
        true
    } else {
        proof {
            assert(views_of(parts@)[i as int] == parts@[i as int]@);
        }
        match assoc_get(schema, parts[i].as_str()) {
            None => false,
            Some(v) => match &v.field_type {
                FieldType::ObjTy(inner) => path_exists(inner, parts, i + 1),
                _ => false,
            },
        }
    }
}

/// Inserts `fv` under `field_name` at the end of the path `parts[i..]`,
/// which the caller has checked to exist.
fn insert_at_path(
    schema: &mut Vec<(String, FieldValidator)>,
    parts: &Vec<String>,
    i: usize,
    field_name: String,
    fv: FieldValidator,
)
    requires
        i <= parts@.len(),
        path_ok(old(schema)@, views_of(parts@), i as int),
    ensures
        nested_rel(old(schema)@, final(schema)@, views_of(parts@), i as int, field_name, fv),
    decreases parts@.len() - i,
{
    if i == parts.len() {
        assoc_set(schema, field_name, fv);
    } else {
        proof {
            assert(views_of(parts@)[i as int] == parts@[i as int]@);
            lemma_key_index(schema@, parts@[i as int]@);
        }
        let j = match find_key(schema, parts[i].as_str()) {
            Some(j) => j,
            None => {
                proof {
                    assert(false);
                }
                0
            },
        };
        let entry = schema.remove(j);
        let name0 = entry.0;
        let v0 = entry.1;
        match v0.field_type {
            FieldType::ObjTy(mut inner) => {
                insert_at_path(&mut inner, parts, i + 1, field_name, fv);
                let rebuilt = FieldValidator {
                    field_type: FieldType::ObjTy(inner),
                    required: v0.required,
                    constraints: v0.constraints,
                };
                schema.insert(j, (name0, rebuilt));
                proof {
                    assert forall|k: int|
                        0 <= k < old(schema)@.len() && k != j implies schema@[k] == old(
                        schema,
                    )@[k] by {
                        if k < j {
                            assert(schema@[k] == old(schema)@.remove(j as int)[k]);
                        } else {
                            assert(schema@[k] == old(schema)@.remove(j as int)[k - 1]);
                        }
                    }
                }
            },
            other => {
                proof {
                    assert(false);
                }
                let rebuilt = FieldValidator {
                    field_type: other,
                    required: v0.required,
                    constraints: v0.constraints,
                };
                schema.insert(j, (name0, rebuilt));
            },
        }
    }
}

impl DhiCore {
    /// Builds an empty engine.
    pub fn new() -> (r: DhiCore)
        ensures
            r.schema@.len() == 0,
            r.custom_types@.len() == 0,
            r.batch_size == 1000,
            r.debug == false,
            r.last_field is None,
    {
        DhiCore {
            schema: Vec::new(),
            custom_types: Vec::new(),
            batch_size: 1000,
            debug: false,
            last_field: None,
        }
    }

    /// Reads the stored batch-size configuration value.
    pub fn get_batch_size(&self) -> (r: i32)
        ensures
            r == self.batch_size,
    {
        self.batch_size
    }

    /// Stores a batch-size configuration value.
    pub fn set_batch_size(&mut self, size: i32)
        ensures
            final(self).batch_size == size,
            final(self).schema == old(self).schema,
            final(self).custom_types == old(self).custom_types,
            final(self).debug == old(self).debug,
            final(self).last_field == old(self).last_field,
    {
        self.batch_size = size;
    }

    /// Switches the debugging flag.
    pub fn set_debug(&mut self, debug: bool)
        ensures
            final(self).debug == debug,
            final(self).schema == old(self).schema,
            final(self).custom_types == old(self).custom_types,
            final(self).batch_size == old(self).batch_size,
            final(self).last_field == old(self).last_field,
    {
        self.debug = debug;
    }

    /// Declares a custom type, registering an empty schema for it if it is
    /// not yet known; declaring it twice changes nothing.
    pub fn define_custom_type(&mut self, name: String)
        ensures
            final(self).schema == old(self).schema,
            final(self).batch_size == old(self).batch_size,
            final(self).debug == old(self).debug,
            final(self).last_field == old(self).last_field,
            assoc_has(final(self).custom_types@, name@),
            assoc_has(old(self).custom_types@, name@) ==> final(self).custom_types
                == old(self).custom_types,
            !assoc_has(old(self).custom_types@, name@) ==> {
                &&& final(self).custom_types@.len() == old(self).custom_types@.len() + 1
                &&& final(self).custom_types@.subrange(
                    0,
                    old(self).custom_types@.len() as int,
                ) == old(self).custom_types@
                &&& final(self).custom_types@.last().0 == name
                &&& final(self).custom_types@.last().1@.len() == 0
            },
    {
        proof {
            lemma_key_index(self.custom_types@, name@);
        }
        match find_key(&self.custom_types, name.as_str()) {
            Some(_) => {},
            None => {
                let fresh: Schema = Vec::new();
                let ghost n = self.custom_types@.len() as int;
                let ghost key = name@;
                self.custom_types.push((name, fresh));
                proof {
                    assert(self.custom_types@.subrange(0, n) =~= old(self).custom_types@);
                    lemma_key_index_at(self.custom_types@, key, n);
                }
            },
        }
    }

    /// Parses `field_type` and inserts the field into the root schema,
    /// silently overwriting an existing field of the same name; the new field
    /// becomes the "last inserted" cursor. Fails, changing nothing, when the
    /// type string is unparsable.
    pub fn add_field(&mut self, name: String, field_type: &str, required: bool) -> (r: Result<
        (),
        SchemaError,
    >)
        ensures
            final(self).custom_types == old(self).custom_types,
            final(self).batch_size == old(self).batch_size,
            final(self).debug == old(self).debug,
            match r {
                Ok(_) => {
                    &&& parseable(field_type@, old(self).custom_types@)
                    &&& exists|ft: FieldType|
                        {
                            &&& #[trigger] parses_to(field_type@, old(self).custom_types@, ft)
                            &&& final(self).schema@ == assoc_upsert(
                                old(self).schema@,
                                name,
                                FieldValidator {
                                    field_type: ft,
                                    required,
                                    constraints: FieldConstraints::spec_none(),
                                },
                            )
                        }
                    &&& final(self).last_field == Some(
                        if assoc_has(old(self).schema@, name@) {
                            key_index(old(self).schema@, name@) as usize
                        } else {
                            old(self).schema@.len() as usize
                        },
                    )
                },
                Err(e) => {
                    &&& *final(self) == *old(self)
                    &&& !parseable(field_type@, old(self).custom_types@)
                    &&& match e {
                        SchemaError::UnsupportedType(u) => u@ == unsupported_part(
                            field_type@,
                            old(self).custom_types@,
                        ),
                        _ => false,
                    }
                },
            },
    {
        match parse_field_type(&self.custom_types, field_type) {
            Ok(ft) => {
                let fv = FieldValidator {
                    field_type: ft,
                    required,
                    constraints: FieldConstraints::none(),
                };
                let pos = assoc_set(&mut self.schema, name, fv);
                self.last_field = Some(pos);
                Ok(())
            },
            Err(e) => Err(e),
        }
    }

    /// Inserts a field of object type with an empty inline sub-schema into
    /// the root schema: a container to be populated through
    /// [`DhiCore::add_nested_field`]. The new field becomes the "last
    /// inserted" cursor.
    pub fn add_object_field(&mut self, name: String, required: bool)
        ensures
            final(self).custom_types == old(self).custom_types,
            final(self).batch_size == old(self).batch_size,
            final(self).debug == old(self).debug,
            exists|fv: FieldValidator|
                {
                    &&& final(self).schema@ == #[trigger] assoc_upsert(old(self).schema@, name, fv)
                    &&& fv.field_type matches FieldType::ObjTy(m) && m@.len() == 0
                    &&& fv.required == required
                    &&& fv.constraints == FieldConstraints::spec_none()
                },
            final(self).last_field == Some(
                if assoc_has(old(self).schema@, name@) {
                    key_index(old(self).schema@, name@) as usize
                } else {
                    old(self).schema@.len() as usize
                },
            ),
    {
        let fv = FieldValidator {
            field_type: FieldType::ObjTy(Vec::new()),
            required,
            constraints: FieldConstraints::none(),
        };
        let ghost w = fv;
        let pos = assoc_set(&mut self.schema, name, fv);
        self.last_field = Some(pos);
        proof {
            assert(self.schema@ == assoc_upsert(old(self).schema@, name, w));
        }
    }

    /// Parses `field_type` and inserts the field into the schema of the
    /// named custom type. Fails with `UnsupportedType`, changing nothing,
    /// when the type string is unparsable; then with `UndefinedCustomType`,
    /// changing nothing, when the custom type was never declared.
    pub fn add_field_to_custom_type(
        &mut self,
        ctype: String,
        field_name: String,
        field_type: &str,
        required: bool,
    ) -> (r: Result<(), SchemaError>)
        ensures
            final(self).schema == old(self).schema,
            final(self).batch_size == old(self).batch_size,
            final(self).debug == old(self).debug,
            final(self).last_field == old(self).last_field,
            match r {
                Ok(_) => {
                    &&& parseable(field_type@, old(self).custom_types@)
                    &&& assoc_has(old(self).custom_types@, ctype@)
                    &&& {
                        let j = key_index(old(self).custom_types@, ctype@);
                        &&& final(self).custom_types@.len() == old(self).custom_types@.len()
                        &&& forall|k: int|
                            0 <= k < old(self).custom_types@.len() && k != j
                                ==> final(self).custom_types@[k] == old(self).custom_types@[k]
                        &&& final(self).custom_types@[j].0 == old(self).custom_types@[j].0
                        &&& exists|ft: FieldType|
                            {
                                &&& #[trigger] parses_to(
                                    field_type@,
                                    old(self).custom_types@,
                                    ft,
                                )
                                &&& final(self).custom_types@[j].1@ == assoc_upsert(
                                    old(self).custom_types@[j].1@,
                                    field_name,
                                    FieldValidator {
                                        field_type: ft,
                                        required,
                                        constraints: FieldConstraints::spec_none(),
                                    },
                                )
                            }
                    }
                },
                Err(e) => {
                    &&& *final(self) == *old(self)
                    &&& match e {
                        SchemaError::UnsupportedType(u) => {
                            &&& !parseable(field_type@, old(self).custom_types@)
                            &&& u@ == unsupported_part(field_type@, old(self).custom_types@)
                        },
                        SchemaError::UndefinedCustomType(t) => {
                            &&& parseable(field_type@, old(self).custom_types@)
                            &&& !assoc_has(old(self).custom_types@, ctype@)
                            &&& t@ == ctype@
                        },
                        SchemaError::InvalidObjectPath => false,
                    }
                },
            },
    {
        match parse_field_type(&self.custom_types, field_type) {
            Err(e) => Err(e),
            Ok(ft) => {
                proof {
                    lemma_key_index(self.custom_types@, ctype@);
                }
                match find_key(&self.custom_types, ctype.as_str()) {
                    None => Err(SchemaError::UndefinedCustomType(ctype)),
                    Some(j) => {
                        let mut entry = self.custom_types.remove(j);
                        let fv = FieldValidator {
                            field_type: ft,
                            required,
                            constraints: FieldConstraints::none(),
                        };
                        let ghost w = fv;
                        let ghost inner0 = entry.1@;
                        assoc_set(&mut entry.1, field_name, fv);
                        self.custom_types.insert(j, entry);
                        proof {
                            assert(inner0 == old(self).custom_types@[j as int].1@);
                            assert forall|k: int|
                                0 <= k < old(self).custom_types@.len() && k != j
                                    implies self.custom_types@[k] == old(
                                    self,
                                ).custom_types@[k] by {
                                if k < j {
                                    assert(self.custom_types@[k] == old(
                                        self,
                                    ).custom_types@.remove(j as int)[k]);
                                } else {
                                    assert(self.custom_types@[k] == old(
                                        self,
                                    ).custom_types@.remove(j as int)[k - 1]);
                                }
                            }
                        }
                        Ok(())
                    },
                }
            },
        }
    }

    /// Flips the required flag of the most recently inserted root field to
    /// the negation of `optional`; with no such field, changes nothing.
    pub fn set_optional(&mut self, optional: bool)
        ensures
            final(self).custom_types == old(self).custom_types,
            final(self).batch_size == old(self).batch_size,
            final(self).debug == old(self).debug,
            final(self).last_field == old(self).last_field,
            cursor_update_ok(*old(self), *final(self), !optional),
    {
        match self.last_field {
            None => {},
            Some(i) => {
                if i < self.schema.len() {
                    let entry = self.schema.remove(i);
                    let fv = FieldValidator {
                        field_type: entry.1.field_type,
                        required: !optional,
                        constraints: entry.1.constraints,
                    };
                    self.schema.insert(i, (entry.0, fv));
                    proof {
                        assert(self.schema@ =~= old(self).schema@.update(
                            i as int,
                            (
                                old(self).schema@[i as int].0,
                                FieldValidator {
                                    field_type: old(self).schema@[i as int].1.field_type,
                                    required: !optional,
                                    constraints: old(self).schema@[i as int].1.constraints,
                                },
                            ),
                        ));
                    }
                }
            },
        }
    }

    /// Flips the required flag of the most recently inserted root field to
    /// the negation of `nullable`: absence and null-ness are conflated, and
    /// this behaves exactly as [`DhiCore::set_optional`].
    pub fn set_nullable(&mut self, nullable: bool)
        ensures
            final(self).custom_types == old(self).custom_types,
            final(self).batch_size == old(self).batch_size,
            final(self).debug == old(self).debug,
            final(self).last_field == old(self).last_field,
            cursor_update_ok(*old(self), *final(self), !nullable),
    {
        self.set_optional(nullable);
    }

    /// Replaces the type of the most recently inserted root field with the
    /// named scalar type (`string`, `number` or `boolean`; anything else
    /// means the any-type); with no such field, changes nothing.
    pub fn set_value_type(&mut self, value_type: &str)
        ensures
            final(self).custom_types == old(self).custom_types,
            final(self).batch_size == old(self).batch_size,
            final(self).debug == old(self).debug,
            final(self).last_field == old(self).last_field,
            cursor_retype_ok(*old(self), *final(self), scalar_override(value_type@)),
    {
        match self.last_field {
            None => {},
            Some(i) => {
                if i < self.schema.len() {
                    let nt: FieldType = if crate::schema::str_eq(value_type, "string") {
                        FieldType::StrTy
                    } else if crate::schema::str_eq(value_type, "number") {
                        FieldType::NumTy
                    } else if crate::schema::str_eq(value_type, "boolean") {
                        FieldType::BoolTy
                    } else {
                        FieldType::AnyTy
                    };
                    let entry = self.schema.remove(i);
                    let fv = FieldValidator {
                        field_type: nt,
                        required: entry.1.required,
                        constraints: entry.1.constraints,
                    };
                    self.schema.insert(i, (entry.0, fv));
                    proof {
                        assert(self.schema@ =~= old(self).schema@.update(
                            i as int,
                            (
                                old(self).schema@[i as int].0,
                                FieldValidator {
                                    field_type: scalar_override(value_type@),
                                    required: old(self).schema@[i as int].1.required,
                                    constraints: old(self).schema@[i as int].1.constraints,
                                },
                            ),
                        ));
                    }
                }
            },
        }
    }

    /// Parses `field_type` and inserts the field at the end of the given
    /// dot-separated path of object fields; an empty path inserts into the
    /// root schema exactly as [`DhiCore::add_field`] does. Fails with
    /// `UnsupportedType`, changing nothing, when the type string is
    /// unparsable; then with `InvalidObjectPath`, changing nothing, when a
    /// path segment is missing or does not name an object field.
    pub fn add_nested_field(
        &mut self,
        object_path: &str,
        field_name: String,
        field_type: &str,
        required: bool,
    ) -> (r: Result<(), SchemaError>)
        ensures
            final(self).custom_types == old(self).custom_types,
            final(self).batch_size == old(self).batch_size,
            final(self).debug == old(self).debug,
            match r {
                Ok(_) => {
                    &&& parseable(field_type@, old(self).custom_types@)
                    &&& path_ok(old(self).schema@, nested_parts(object_path@), 0)
                    &&& exists|ft: FieldType|
                        {
                            &&& #[trigger] parses_to(field_type@, old(self).custom_types@, ft)
                            &&& nested_rel(
                                old(self).schema@,
                                final(self).schema@,
                                nested_parts(object_path@),
                                0,
                                field_name,
                                FieldValidator {
                                    field_type: ft,
                                    required,
                                    constraints: FieldConstraints::spec_none(),
                                },
                            )
                        }
                    &&& object_path@.len() == 0 ==> final(self).last_field == Some(
                        if assoc_has(old(self).schema@, field_name@) {
                            key_index(old(self).schema@, field_name@) as usize
                        } else {
                            old(self).schema@.len() as usize
                        },
                    )
                    &&& object_path@.len() > 0 ==> final(self).last_field == old(
                        self,
                    ).last_field
                },
                Err(e) => {
                    &&& *final(self) == *old(self)
                    &&& match e {
                        SchemaError::UnsupportedType(u) => {
                            &&& !parseable(field_type@, old(self).custom_types@)
                            &&& u@ == unsupported_part(field_type@, old(self).custom_types@)
                        },
                        SchemaError::InvalidObjectPath => {
                            &&& parseable(field_type@, old(self).custom_types@)
                            &&& !path_ok(old(self).schema@, nested_parts(object_path@), 0)
                        },
                        SchemaError::UndefinedCustomType(_) => false,
                    }
                },
            },
    {
        match parse_field_type(&self.custom_types, field_type) {
            Err(e) => Err(e),
            Ok(ft) => {
                let fv = FieldValidator {
                    field_type: ft,
                    required,
                    constraints: FieldConstraints::none(),
                };
                let ghost w = fv;
                if object_path.unicode_len() == 0 {
                    let pos = assoc_set(&mut self.schema, field_name, fv);
                    self.last_field = Some(pos);
                    proof {
                        assert(nested_rel(
                            old(self).schema@,
                            self.schema@,
                            nested_parts(object_path@),
                            0,
                            field_name,
                            w,
                        ));
                    }
                    Ok(())
                } else {
                    let parts = split_char_exec(object_path, '.');
                    proof {
                        assert(views_of(parts@) == nested_parts(object_path@));
                    }
                    if !path_exists(&self.schema, &parts, 0) {
                        Err(SchemaError::InvalidObjectPath)
                    } else {
                        insert_at_path(&mut self.schema, &parts, 0, field_name, fv);
                        Ok(())
                    }
                }
            },
        }
    }

    /// Decides whether a submitted value satisfies the root schema.
    pub fn validate(&self, value: &Value) -> (r: bool)
        ensures
            r == item_ok(self.custom_types@, self.schema@, *value),
    {
        check_item(&self.custom_types, &self.schema, value)
    }

    /// Validates a batch of values: one verdict per value, in order, each
    /// independent of the others.
    ///
    /// The strategy is picked once per call: a schema whose fields are all
    /// primitive takes a flat per-field fast path; any other schema takes the
    /// general recursive validator, processed in fixed-size chunks. The
    /// chunking is a locality measure only and the fast path agrees with the
    /// recursive one ([`lemma_flat_item`]), so the verdicts do not depend on
    /// the strategy.
    #[verifier::loop_isolation(false)]
    pub fn validate_batch(&self, items: &Vec<Value>) -> (r: Vec<bool>)
        ensures
            r@.len() == items@.len(),
            forall|i: int|
                0 <= i < items@.len() ==> r@[i] == item_ok(
                    self.custom_types@,
                    self.schema@,
                    items@[i],
                ),
    {
        let mut results: Vec<bool> = Vec::new();
        if schema_is_flat(&self.schema) {
            let mut i: usize = 0;
            while i < items.len()
                invariant
                    i <= items@.len(),
                    results@.len() == i,
                    forall|j: int|
                        0 <= j < i ==> results@[j] == item_ok(
                            self.custom_types@,
                            self.schema@,
                            items@[j],
                        ),
                decreases items@.len() - i,
            {
                let ok = check_item_flat(&self.schema, &items[i]);
                proof {
                    lemma_flat_item(self.custom_types@, self.schema@, items@[i as int]);
                }
                results.push(ok);
                i += 1;
            }
        } else {
            let len = items.len();
            let mut start: usize = 0;
            while start < len
                invariant
                    start <= len,
                    len == items@.len(),
                    results@.len() == start,
                    forall|j: int|
                        0 <= j < start ==> results@[j] == item_ok(
                            self.custom_types@,
                            self.schema@,
                            items@[j],
                        ),
                decreases len - start,
            {
                let end = if len - start > CHUNK_SIZE {
                    start + CHUNK_SIZE
                } else {
                    len
                };
                let mut i = start;
                while i < end
                    invariant
                        start < end <= len,
                        start <= i <= end,
                        len == items@.len(),
                        results@.len() == i,
                        forall|j: int|
                            0 <= j < i ==> results@[j] == item_ok(
                                self.custom_types@,
                                self.schema@,
                                items@[j],
                            ),
                    decreases end - i,
                {
                    results.push(check_item(&self.custom_types, &self.schema, &items[i]));
                    i += 1;
                }
                start = end;
            }
        }
        results
    }
}

/// How many items each slow-path chunk holds; a cache-locality measure with
/// no effect on the verdicts.
pub const CHUNK_SIZE: usize = 10000;

} // verus!
