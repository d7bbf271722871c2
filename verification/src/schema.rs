//! Schema data model: field types, per-field constraints, field validators,
//! and the insertion-ordered association lists that hold schemas and the
//! custom-type registry.

use vstd::prelude::*;

verus! {

/// Layered, field-local checks applied on top of the base type check.
///
/// Length and value bounds, a substring pattern, and email/URL format flags.
/// Constraints only ever act on string and numeric values; on any other kind
/// of value they are ignored.
pub struct FieldConstraints {
    /// Least allowed string length, in UTF-8 bytes.
    pub min_length: Option<usize>,
    /// Greatest allowed string length, in UTF-8 bytes.
    pub max_length: Option<usize>,
    /// Least allowed numeric value.
    pub min_value: Option<i64>,
    /// Greatest allowed numeric value.
    pub max_value: Option<i64>,
    /// A string the value must contain (substring containment, not a
    /// regular expression).
    pub pattern: Option<String>,
    /// The value must look like an email address.
    pub email: bool,
    /// The value must start with an HTTP or HTTPS scheme.
    pub url: bool,
}

impl FieldConstraints {
    /// The record with every check switched off.
    pub open spec fn spec_none() -> FieldConstraints {
        FieldConstraints {
            min_length: None,
            max_length: None,
            min_value: None,
            max_value: None,
            pattern: None,
            email: false,
            url: false,
        }
    }

    /// Builds the empty constraint record: every check passes.
    pub fn none() -> (r: FieldConstraints)
        ensures
            r == FieldConstraints::spec_none(),
    {
        FieldConstraints {
            min_length: None,
            max_length: None,
            min_value: None,
            max_value: None,
            pattern: None,
            email: false,
            url: false,
        }
    }
}

/// The closed, recursively composable type of a field.
pub enum FieldType {
    /// A string (also the target of the `email`, `url`, `uuid` and
    /// `date-time` aliases).
    StrTy,
    /// An integer; checked exactly as a number.
    IntTy,
    /// A number.
    NumTy,
    /// A boolean.
    BoolTy,
    /// A sequence whose every element satisfies the inner type.
    ArrTy(Box<FieldType>),
    /// A keyed object with an inline nested schema.
    ObjTy(Vec<(String, FieldValidator)>),
    /// A keyed object whose every value (keys ignored) satisfies the inner
    /// type.
    RecTy(Box<FieldType>),
    /// A non-owning reference into the custom-type registry, resolved at
    /// validation time.
    CustomTy(String),
    /// A string restricted to a set of allowed literals.
    EnumTy(Vec<String>),
    /// Accepts every value.
    AnyTy,
    /// Accepts every value.
    UnknownTy,
    /// Accepts no value.
    NeverTy,
    /// The host "undefined" sentinel.
    VoidTy,
    /// The host "null" sentinel.
    NullTy,
    /// The host "undefined" sentinel.
    UndefTy,
    /// A host date.
    DateTy,
    /// A host arbitrary-precision integer.
    BigIntTy,
    /// A host symbol.
    SymbolTy,
}

/// A field's type together with its required flag and constraints.
pub struct FieldValidator {
    pub field_type: FieldType,
    pub required: bool,
    pub constraints: FieldConstraints,
}

/// An insertion-ordered mapping from field name to validator.
pub type Schema = Vec<(String, FieldValidator)>;

/// An insertion-ordered mapping from custom-type name to its schema.
pub type Registry = Vec<(String, Schema)>;

/// A schema-construction failure.
#[derive(Debug)]
pub enum SchemaError {
    /// The type string matches no primitive, no bracketed composite, and no
    /// registered custom type.
    UnsupportedType(String),
    /// A field was added to a custom type that was never declared.
    UndefinedCustomType(String),
    /// A nested path segment is missing or does not name an object field.
    InvalidObjectPath,
}

/// The position of the first entry with key `k`, or `-1` if there is none.
pub open spec fn key_index<V>(m: Seq<(String, V)>, k: Seq<char>) -> int
    decreases m.len(),
{
    if m.len() == 0 {
        -1
    } else if m[0].0@ == k {
        0
    } else if key_index(m.drop_first(), k) < 0 {
        -1
    } else {
        1 + key_index(m.drop_first(), k)
    }
}

/// Whether the association list holds an entry with key `k`.
pub open spec fn assoc_has<V>(m: Seq<(String, V)>, k: Seq<char>) -> bool {
    key_index(m, k) >= 0
}

/// The value of the first entry with key `k`.
pub open spec fn assoc_val<V>(m: Seq<(String, V)>, k: Seq<char>) -> V
    recommends
        assoc_has(m, k),
{
    m[key_index(m, k)].1
}

/// `key_index` points at the first entry with the given key, or past none.
pub proof fn lemma_key_index<V>(m: Seq<(String, V)>, k: Seq<char>)
    ensures
        -1 <= key_index(m, k) < m.len(),
        key_index(m, k) >= 0 ==> m[key_index(m, k)].0@ == k,
        forall|j: int| 0 <= j < key_index(m, k) ==> m[j].0@ != k,
        key_index(m, k) == -1 ==> forall|j: int| 0 <= j < m.len() ==> m[j].0@ != k,
    decreases m.len(),
{
    if m.len() > 0 && m[0].0@ != k {
        lemma_key_index(m.drop_first(), k);
        assert forall|j: int| 0 <= j < key_index(m, k) implies m[j].0@ != k by {
            if j > 0 {
                assert(m.drop_first()[j - 1] == m[j]);
            }
        }
        if key_index(m, k) == -1 {
            assert forall|j: int| 0 <= j < m.len() implies m[j].0@ != k by {
                if j > 0 {
                    assert(m.drop_first()[j - 1] == m[j]);
                }
            }
        }
    }
}

/// Conversely: an entry with key `k` at `i`, preceded by no other, fixes
/// `key_index` at `i`.
pub proof fn lemma_key_index_at<V>(m: Seq<(String, V)>, k: Seq<char>, i: int)
    requires
        0 <= i < m.len(),
        m[i].0@ == k,
        forall|j: int| 0 <= j < i ==> m[j].0@ != k,
    ensures
        key_index(m, k) == i,
    decreases m.len(),
{
    if i > 0 {
        assert(forall|j: int|
            0 <= j < m.drop_first().len() ==> m.drop_first()[j] == m[j + 1]);
        lemma_key_index_at(m.drop_first(), k, i - 1);
    }
}

/// Compares two string slices by content.
pub fn str_eq(a: &str, b: &str) -> (r: bool)
    ensures
        r == (a@ == b@),
{
    let sa: String = a.to_owned();
    let sb: String = b.to_owned();
    sa == sb
}

/// Finds the position of the first entry named `k`, if any.
pub fn find_key<V>(m: &Vec<(String, V)>, k: &str) -> (r: Option<usize>)
    ensures
        match r {
            Some(i) => key_index(m@, k@) == i as int,
            None => key_index(m@, k@) == -1,
        },
{
    let mut i: usize = 0;
    while i < m.len()
        invariant
            i <= m@.len(),
            forall|j: int| 0 <= j < i ==> m@[j].0@ != k@,
        decreases m@.len() - i,
    {
        if str_eq(m[i].0.as_str(), k) {
            proof {
                lemma_key_index_at(m@, k@, i as int);
            }
            return Some(i);
        }
        i += 1;
    }
    proof {
        lemma_key_index(m@, k@);
    }
    None
}

/// The list after setting `key` to `v`: the first entry named `key` is
/// replaced in place; a fresh key is appended at the end.
pub open spec fn assoc_upsert<V>(m: Seq<(String, V)>, key: String, v: V) -> Seq<(String, V)> {
    if assoc_has(m, key@) {
        m.update(key_index(m, key@), (key, v))
    } else {
        m.push((key, v))
    }
}

/// Inserts or overwrites the entry named `key`, returning its position.
pub fn assoc_set<V>(m: &mut Vec<(String, V)>, key: String, v: V) -> (pos: usize)
    ensures
        final(m)@ == assoc_upsert(old(m)@, key, v),
        pos < final(m)@.len(),
        final(m)@[pos as int] == (key, v),
        pos as int == if assoc_has(old(m)@, key@) {
            key_index(old(m)@, key@)
        } else {
            old(m)@.len() as int
        },
{
    proof {
        lemma_key_index(m@, key@);
    }
    match find_key(m, key.as_str()) {
        Some(i) => {
            m.set(i, (key, v));
            i
        },
        None => {
            let n = m.len();
            m.push((key, v));
            n
        },
    }
}

/// Borrows the value of the first entry named `k`, if any.
pub fn assoc_get<'a, V>(m: &'a Vec<(String, V)>, k: &str) -> (r: Option<&'a V>)
    ensures
        match r {
            Some(v) => assoc_has(m@, k@) && *v == assoc_val(m@, k@),
            None => !assoc_has(m@, k@),
        },
{
    proof {
        lemma_key_index(m@, k@);
    }
    match find_key(m, k) {
        Some(i) => Some(&m[i].1),
        None => None,
    }
}

} // verus!
