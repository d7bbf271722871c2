//! The type grammar: parsing a type-name string into a [`FieldType`], and
//! rendering a [`FieldType`] back into its canonical type-name string.
//!
//! The grammar is case-sensitive and recursive:
//! primitives, `Array<T>` / `List[T]`, `Record<T>` / `Dict[T]`,
//! `enum:a,b,c`, and otherwise a reference to a registered custom type.

use vstd::prelude::*;
use crate::schema::assoc_has;
use crate::schema::find_key;
use crate::schema::str_eq;
use crate::schema::FieldType;
use crate::schema::Registry;
use crate::schema::Schema;
use crate::schema::SchemaError;

verus! {

/// The views of a vector of strings.
pub open spec fn views_of(vs: Seq<String>) -> Seq<Seq<char>> {
    vs.map_values(|x: String| x@)
}

/// The position of the first occurrence of `c`, or `-1` if there is none.
pub open spec fn char_index(s: Seq<char>, c: char) -> int
    decreases s.len(),
{
    if s.len() == 0 {
        -1
    } else if s[0] == c {
        0
    } else if char_index(s.drop_first(), c) < 0 {
        -1
    } else {
        1 + char_index(s.drop_first(), c)
    }
}

/// `char_index` points at the first occurrence, or past none.
pub proof fn lemma_char_index(s: Seq<char>, c: char)
    ensures
        -1 <= char_index(s, c) < s.len(),
        char_index(s, c) >= 0 ==> s[char_index(s, c)] == c,
        forall|j: int| 0 <= j < char_index(s, c) ==> s[j] != c,
        char_index(s, c) == -1 ==> forall|j: int| 0 <= j < s.len() ==> s[j] != c,
    decreases s.len(),
{
    if s.len() > 0 && s[0] != c {
        lemma_char_index(s.drop_first(), c);
        assert forall|j: int| 0 <= j < char_index(s, c) implies s[j] != c by {
            if j > 0 {
                assert(s.drop_first()[j - 1] == s[j]);
            }
        }
        if char_index(s, c) == -1 {
            assert forall|j: int| 0 <= j < s.len() implies s[j] != c by {
                if j > 0 {
                    assert(s.drop_first()[j - 1] == s[j]);
                }
            }
        }
    }
}

/// Conversely: an occurrence at `i`, preceded by none, fixes `char_index`.
pub proof fn lemma_char_index_at(s: Seq<char>, c: char, i: int)
    requires
        0 <= i < s.len(),
        s[i] == c,
        forall|j: int| 0 <= j < i ==> s[j] != c,
    ensures
        char_index(s, c) == i,
    decreases s.len(),
{
    if i > 0 {
        assert(forall|j: int|
            0 <= j < s.drop_first().len() ==> s.drop_first()[j] == s[j + 1]);
        lemma_char_index_at(s.drop_first(), c, i - 1);
    }
}

/// The segments of `s` between occurrences of `sep`, in order; a string
/// without the separator is one segment, so the result is never empty.
pub open spec fn split_char(s: Seq<char>, sep: char) -> Seq<Seq<char>>
    decreases s.len(),
    via split_char_decreases
{
    let i = char_index(s, sep);
    if i < 0 {
        seq![s]
    } else {
        seq![s.subrange(0, i)] + split_char(s.subrange(i + 1, s.len() as int), sep)
    }
}

#[via_fn]
proof fn split_char_decreases(s: Seq<char>, sep: char) {
    lemma_char_index(s, sep);
}

/// `p` is a prefix of `s`.
pub open spec fn has_prefix(s: Seq<char>, p: Seq<char>) -> bool {
    p.len() <= s.len() && s.subrange(0, p.len() as int) == p
}

/// `s` is `pre`, then an inner type string, then the one-character suffix.
pub open spec fn is_composite(s: Seq<char>, pre: Seq<char>, suf: char) -> bool {
    &&& has_prefix(s, pre)
    &&& s.len() > pre.len()
    &&& s[s.len() - 1] == suf
}

/// The inner type string of a composite form.
pub open spec fn composite_inner(s: Seq<char>, pre: Seq<char>) -> Seq<char> {
    s.subrange(pre.len() as int, s.len() - 1)
}

/// Keywords that resolve to the string type.
pub open spec fn kw_str(s: Seq<char>) -> bool {
    ||| s == "str"@
    ||| s == "string"@
    ||| s == "email"@
    ||| s == "url"@
    ||| s == "uuid"@
    ||| s == "date-time"@
}

/// Keywords that resolve to the integer type.
pub open spec fn kw_int(s: Seq<char>) -> bool {
    s == "int"@ || s == "integer"@
}

/// Keywords that resolve to the number type.
pub open spec fn kw_num(s: Seq<char>) -> bool {
    s == "float"@ || s == "number"@
}

/// Keywords that resolve to the boolean type.
pub open spec fn kw_bool(s: Seq<char>) -> bool {
    s == "bool"@ || s == "boolean"@
}

/// Every primitive keyword of the grammar.
pub open spec fn is_keyword(s: Seq<char>) -> bool {
    ||| kw_str(s)
    ||| kw_int(s)
    ||| kw_num(s)
    ||| kw_bool(s)
    ||| s == "any"@
    ||| s == "object"@
    ||| s == "record"@
    ||| s == "date"@
    ||| s == "bigint"@
    ||| s == "symbol"@
    ||| s == "undefined"@
    ||| s == "null"@
    ||| s == "void"@
    ||| s == "unknown"@
    ||| s == "never"@
}

/// Whether the grammar accepts `s` under registry `reg`.
pub open spec fn parseable(s: Seq<char>, reg: Seq<(String, Schema)>) -> bool
    decreases s.len(),
{
    if is_keyword(s) {
        true
    } else if has_prefix(s, "enum:"@) {
        true
    } else if is_composite(s, "Array<"@, '>') {
        parseable(composite_inner(s, "Array<"@), reg)
    } else if is_composite(s, "List["@, ']') {
        parseable(composite_inner(s, "List["@), reg)
    } else if is_composite(s, "Record<"@, '>') {
        parseable(composite_inner(s, "Record<"@), reg)
    } else if is_composite(s, "Dict["@, ']') {
        parseable(composite_inner(s, "Dict["@), reg)
    } else {
        assoc_has(reg, s)
    }
}

/// The deepest type string on which parsing `s` fails; meaningful only when
/// `s` is not parseable.
pub open spec fn unsupported_part(s: Seq<char>, reg: Seq<(String, Schema)>) -> Seq<char>
    decreases s.len(),
{
    if is_keyword(s) || has_prefix(s, "enum:"@) {
        s
    } else if is_composite(s, "Array<"@, '>') {
        unsupported_part(composite_inner(s, "Array<"@), reg)
    } else if is_composite(s, "List["@, ']') {
        unsupported_part(composite_inner(s, "List["@), reg)
    } else if is_composite(s, "Record<"@, '>') {
        unsupported_part(composite_inner(s, "Record<"@), reg)
    } else if is_composite(s, "Dict["@, ']') {
        unsupported_part(composite_inner(s, "Dict["@), reg)
    } else {
        s
    }
}

/// Whether `ft` is the parse of `s` under registry `reg`: each branch of the
/// grammar pins the shape of `ft`.
pub open spec fn parses_to(s: Seq<char>, reg: Seq<(String, Schema)>, ft: FieldType) -> bool
    decreases s.len(),
{
    if kw_str(s) {
        ft == FieldType::StrTy
    } else if kw_int(s) {
        ft == FieldType::IntTy
    } else if kw_num(s) {
        ft == FieldType::NumTy
    } else if kw_bool(s) {
        ft == FieldType::BoolTy
    } else if s == "any"@ {
        ft == FieldType::AnyTy
    } else if s == "object"@ {
        match ft {
            FieldType::ObjTy(m) => m@.len() == 0,
            _ => false,
        }
    } else if s == "record"@ {
        match ft {
            FieldType::RecTy(t) => *t == FieldType::AnyTy,
            _ => false,
        }
    } else if s == "date"@ {
        ft == FieldType::DateTy
    } else if s == "bigint"@ {
        ft == FieldType::BigIntTy
    } else if s == "symbol"@ {
        ft == FieldType::SymbolTy
    } else if s == "undefined"@ {
        ft == FieldType::UndefTy
    } else if s == "null"@ {
        ft == FieldType::NullTy
    } else if s == "void"@ {
        ft == FieldType::VoidTy
    } else if s == "unknown"@ {
        ft == FieldType::UnknownTy
    } else if s == "never"@ {
        ft == FieldType::NeverTy
    } else if has_prefix(s, "enum:"@) {
        match ft {
            FieldType::EnumTy(vals) => views_of(vals@) == split_char(
                s.subrange("enum:"@.len() as int, s.len() as int),
                ',',
            ),
            _ => false,
        }
    } else if is_composite(s, "Array<"@, '>') {
        match ft {
            FieldType::ArrTy(t) => parses_to(composite_inner(s, "Array<"@), reg, *t),
            _ => false,
        }
    } else if is_composite(s, "List["@, ']') {
        match ft {
            FieldType::ArrTy(t) => parses_to(composite_inner(s, "List["@), reg, *t),
            _ => false,
        }
    } else if is_composite(s, "Record<"@, '>') {
        match ft {
            FieldType::RecTy(t) => parses_to(composite_inner(s, "Record<"@), reg, *t),
            _ => false,
        }
    } else if is_composite(s, "Dict["@, ']') {
        match ft {
            FieldType::RecTy(t) => parses_to(composite_inner(s, "Dict["@), reg, *t),
            _ => false,
        }
    } else if assoc_has(reg, s) {
        match ft {
            FieldType::CustomTy(n) => n@ == s,
            _ => false,
        }
    } else {
        false
    }
}

/// The comma-separated join of the given segments.
pub open spec fn join_commas(parts: Seq<Seq<char>>) -> Seq<char>
    decreases parts.len(),
{
    if parts.len() == 0 {
        Seq::empty()
    } else if parts.len() == 1 {
        parts[0]
    } else {
        parts[0] + seq![','] + join_commas(parts.drop_first())
    }
}

/// The canonical type-name string of a field type.
///
/// Aliases collapse: an integer renders as `integer`, a number as `number`,
/// an inline object as plain `object` (its schema is not written out).
pub open spec fn render_seq(ft: FieldType) -> Seq<char>
    decreases ft,
{
    match ft {
        FieldType::StrTy => "string"@,
        FieldType::IntTy => "integer"@,
        FieldType::NumTy => "number"@,
        FieldType::BoolTy => "boolean"@,
        FieldType::ArrTy(t) => "Array<"@ + render_seq(*t) + ">"@,
        FieldType::ObjTy(_) => "object"@,
        FieldType::RecTy(t) => "Record<"@ + render_seq(*t) + ">"@,
        FieldType::CustomTy(n) => n@,
        FieldType::EnumTy(vals) => "enum:"@ + join_commas(views_of(vals@)),
        FieldType::AnyTy => "any"@,
        FieldType::UnknownTy => "unknown"@,
        FieldType::NeverTy => "never"@,
        FieldType::VoidTy => "void"@,
        FieldType::NullTy => "null"@,
        FieldType::UndefTy => "undefined"@,
        FieldType::DateTy => "date"@,
        FieldType::BigIntTy => "bigint"@,
        FieldType::SymbolTy => "symbol"@,
    }
}

/// Joins the strings of `vals` from position `i` on, separated by commas.
fn join_from(vals: &Vec<String>, i: usize) -> (r: String)
    requires
        i <= vals@.len(),
    ensures
        r@ == join_commas(views_of(vals@.skip(i as int))),
    decreases vals@.len() - i,
{
    if i == vals.len() {
        proof {
            assert(views_of(vals@.skip(i as int)) =~= Seq::<Seq<char>>::empty());
        }
        String::new()
    } else if i + 1 == vals.len() {
        proof {
            assert(views_of(vals@.skip(i as int)).len() == 1);
        }
        vals[i].clone()
    } else {
        let mut out = vals[i].clone();
        out.append(",");
        let rest = join_from(vals, i + 1);
        out.append(rest.as_str());
        proof {
            reveal_strlit(",");
            assert(","@ =~= seq![',']);
            assert(views_of(vals@.skip(i as int)).drop_first() =~= views_of(
                vals@.skip(i as int + 1),
            ));
        }
        out
    }
}

/// Renders a field type as its canonical type-name string.
pub fn render(ft: &FieldType) -> (r: String)
    ensures
        r@ == render_seq(*ft),
    decreases *ft,
{
    match ft {
        FieldType::StrTy => "string".to_owned(),
        FieldType::IntTy => "integer".to_owned(),
        FieldType::NumTy => "number".to_owned(),
        FieldType::BoolTy => "boolean".to_owned(),
        FieldType::ArrTy(t) => {
            let mut out = String::from_str("Array<");
            let inner = render(&**t);
            out.append(inner.as_str());
            out.append(">");
            out
        },
        FieldType::ObjTy(_) => "object".to_owned(),
        FieldType::RecTy(t) => {
            let mut out = String::from_str("Record<");
            let inner = render(&**t);
            out.append(inner.as_str());
            out.append(">");
            out
        },
        FieldType::CustomTy(n) => n.clone(),
        FieldType::EnumTy(vals) => {
            let mut out = String::from_str("enum:");
            let joined = join_from(vals, 0);
            proof {
                assert(vals@.skip(0) =~= vals@);
            }
            out.append(joined.as_str());
            out
        },
        FieldType::AnyTy => "any".to_owned(),
        FieldType::UnknownTy => "unknown".to_owned(),
        FieldType::NeverTy => "never".to_owned(),
        FieldType::VoidTy => "void".to_owned(),
        FieldType::NullTy => "null".to_owned(),
        FieldType::UndefTy => "undefined".to_owned(),
        FieldType::DateTy => "date".to_owned(),
        FieldType::BigIntTy => "bigint".to_owned(),
        FieldType::SymbolTy => "symbol".to_owned(),
    }
}

/// Finds the position of the first occurrence of `c`, if any.
pub fn find_char(s: &str, c: char) -> (r: Option<usize>)
    ensures
        match r {
            Some(i) => char_index(s@, c) == i as int,
            None => char_index(s@, c) == -1,
        },
{
    let n = s.unicode_len();
    let mut i: usize = 0;
    while i < n
        invariant
            i <= n,
            n == s@.len(),
            forall|j: int| 0 <= j < i ==> s@[j] != c,
        decreases n - i,
    {
        if s.get_char(i) == c {
            proof {
                lemma_char_index_at(s@, c, i as int);
            }
            return Some(i);
        }
        i += 1;
    }
    proof {
        lemma_char_index(s@, c);
    }
    None
}

/// Splits a string on a separator character.
pub fn split_char_exec(s: &str, sep: char) -> (r: Vec<String>)
    ensures
        views_of(r@) == split_char(s@, sep),
    decreases s@.len(),
{
    let n = s.unicode_len();
    match find_char(s, sep) {
        None => {
            let mut r: Vec<String> = Vec::new();
            r.push(s.to_owned());
            proof {
                assert(views_of(r@) =~= split_char(s@, sep));
            }
            r
        },
        Some(i) => {
            proof {
                lemma_char_index(s@, sep);
            }
            let head: String = s.substring_char(0, i).to_owned();
            let rest = split_char_exec(s.substring_char(i + 1, n), sep);
            let mut r: Vec<String> = Vec::new();
            r.push(head);
            let mut tail = rest;
            r.append(&mut tail);
            proof {
                assert(views_of(r@) =~= split_char(s@, sep));
            }
            r
        },
    }
}

/// Parses a type-name string into a field type under the given registry.
///
/// Accepts exactly the grammar (`parseable`); on success the result is the
/// parse of the string (`parses_to`); on failure the error carries the
/// deepest type string that matched nothing.
pub fn parse_field_type(reg: &Registry, s: &str) -> (r: Result<FieldType, SchemaError>)
    ensures
        match r {
            Ok(ft) => parseable(s@, reg@) && parses_to(s@, reg@, ft),
            Err(e) => !parseable(s@, reg@) && match e {
                SchemaError::UnsupportedType(u) => u@ == unsupported_part(s@, reg@),
                _ => false,
            },
        },
    decreases s@.len(),
{
    proof {
        reveal_strlit("enum:");
        reveal_strlit("Array<");
        reveal_strlit("List[");
        reveal_strlit("Record<");
        reveal_strlit("Dict[");
    }
    if str_eq(s, "str") || str_eq(s, "string") || str_eq(s, "email") || str_eq(s, "url")
        || str_eq(s, "uuid") || str_eq(s, "date-time") {
        return Ok(FieldType::StrTy);
    }
    if str_eq(s, "int") || str_eq(s, "integer") {
        return Ok(FieldType::IntTy);
    }
    if str_eq(s, "float") || str_eq(s, "number") {
        return Ok(FieldType::NumTy);
    }
    if str_eq(s, "bool") || str_eq(s, "boolean") {
        return Ok(FieldType::BoolTy);
    }
    if str_eq(s, "any") {
        return Ok(FieldType::AnyTy);
    }
    if str_eq(s, "object") {
        return Ok(FieldType::ObjTy(Vec::new()));
    }
    if str_eq(s, "record") {
        return Ok(FieldType::RecTy(Box::new(FieldType::AnyTy)));
    }
    if str_eq(s, "date") {
        return Ok(FieldType::DateTy);
    }
    if str_eq(s, "bigint") {
        return Ok(FieldType::BigIntTy);
    }
    if str_eq(s, "symbol") {
        return Ok(FieldType::SymbolTy);
    }
    if str_eq(s, "undefined") {
        return Ok(FieldType::UndefTy);
    }
    if str_eq(s, "null") {
        return Ok(FieldType::NullTy);
    }
    if str_eq(s, "void") {
        return Ok(FieldType::VoidTy);
    }
    if str_eq(s, "unknown") {
        return Ok(FieldType::UnknownTy);
    }
    if str_eq(s, "never") {
        return Ok(FieldType::NeverTy);
    }
    let n = s.unicode_len();
    if n >= 5 && str_eq(s.substring_char(0, 5), "enum:") {
        let vals = split_char_exec(s.substring_char(5, n), ',');
        return Ok(FieldType::EnumTy(vals));
    }
    if n >= 7 && str_eq(s.substring_char(0, 6), "Array<") && s.get_char(n - 1) == '>' {
        return match parse_field_type(reg, s.substring_char(6, n - 1)) {
            Ok(t) => Ok(FieldType::ArrTy(Box::new(t))),
            Err(e) => Err(e),
        };
    }
    if n >= 6 && str_eq(s.substring_char(0, 5), "List[") && s.get_char(n - 1) == ']' {
        return match parse_field_type(reg, s.substring_char(5, n - 1)) {
            Ok(t) => Ok(FieldType::ArrTy(Box::new(t))),
            Err(e) => Err(e),
        };
    }
    if n >= 8 && str_eq(s.substring_char(0, 7), "Record<") && s.get_char(n - 1) == '>' {
        return match parse_field_type(reg, s.substring_char(7, n - 1)) {
            Ok(t) => Ok(FieldType::RecTy(Box::new(t))),
            Err(e) => Err(e),
        };
    }
    if n >= 6 && str_eq(s.substring_char(0, 5), "Dict[") && s.get_char(n - 1) == ']' {
        return match parse_field_type(reg, s.substring_char(5, n - 1)) {
            Ok(t) => Ok(FieldType::RecTy(Box::new(t))),
            Err(e) => Err(e),
        };
    }
    if find_key(reg, s).is_some() {
        return Ok(FieldType::CustomTy(s.to_owned()));
    }
    Err(SchemaError::UnsupportedType(s.to_owned()))
}

} // verus!
