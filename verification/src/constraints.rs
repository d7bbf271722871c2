//! The constraint engine: field-local checks layered on top of the base type
//! check. Length bounds count UTF-8 bytes; the pattern check is substring
//! containment (deliberately not regular-expression matching); the email and
//! URL checks are shallow format tests.

use vstd::prelude::*;
use vstd::string::StringSliceAdditionalSpecFns;
use vstd::utf8::encode_utf8;
use crate::schema::FieldConstraints;

verus! {

/// The length of a string in UTF-8 bytes.
pub open spec fn byte_len(s: Seq<char>) -> nat {
    encode_utf8(s).len()
}

/// Position `i` splits `s` into a well-formed email: a single `@` with a
/// non-empty part before it and a non-empty part after it that contains at
/// least one `.`.
pub open spec fn email_split_at(s: Seq<char>, i: int) -> bool {
    &&& 0 < i < s.len() - 1
    &&& s[i] == '@'
    &&& forall|j: int| 0 <= j < s.len() && j != i ==> s[j] != '@'
    &&& exists|j: int| i < j < s.len() && s[j] == '.'
}

/// Shallow email well-formedness.
pub open spec fn email_ok(s: Seq<char>) -> bool {
    exists|i: int| email_split_at(s, i)
}

/// The string starts with `http://` or `https://`.
pub open spec fn url_ok(s: Seq<char>) -> bool {
    ||| s.len() >= 7 && s.subrange(0, 7) == "http://"@
    ||| s.len() >= 8 && s.subrange(0, 8) == "https://"@
}

/// `p` occurs in `s` as a contiguous substring.
pub open spec fn contains_ok(s: Seq<char>, p: Seq<char>) -> bool {
    exists|i: int|
        0 <= i && i + p.len() <= s.len() && #[trigger] s.subrange(i, i + p.len() as int) == p
}

/// All constraints applicable to a string value hold of `s`.
pub open spec fn str_cons_ok(c: FieldConstraints, s: Seq<char>) -> bool {
    &&& match c.min_length {
        Some(n) => byte_len(s) >= n,
        None => true,
    }
    &&& match c.max_length {
        Some(n) => byte_len(s) <= n,
        None => true,
    }
    &&& (c.email ==> email_ok(s))
    &&& (c.url ==> url_ok(s))
    &&& match c.pattern {
        Some(p) => contains_ok(s, p@),
        None => true,
    }
}

/// All constraints applicable to a numeric value hold of `n`.
pub open spec fn num_cons_ok(c: FieldConstraints, n: i64) -> bool {
    &&& match c.min_value {
        Some(m) => n >= m,
        None => true,
    }
    &&& match c.max_value {
        Some(m) => n <= m,
        None => true,
    }
}

/// Collects the characters of a string slice.
pub fn chars_of(s: &str) -> (r: Vec<char>)
    ensures
        r@ == s@,
{
    let n = s.unicode_len();
    let mut r: Vec<char> = Vec::new();
    let mut i: usize = 0;
    while i < n
        invariant
            i <= n,
            n == s@.len(),
            r@.len() == i,
            forall|j: int| 0 <= j < i ==> r@[j] == s@[j],
        decreases n - i,
    {
        r.push(s.get_char(i));
        i += 1;
    }
    proof {
        assert(r@ =~= s@);
    }
    r
}

/// Decides shallow email well-formedness.
pub fn check_email(s: &Vec<char>) -> (r: bool)
    ensures
        r == email_ok(s@),
{
    let n = s.len();
    let mut at_pos: Option<usize> = None;
    let mut i: usize = 0;
    while i < n
        invariant
            i <= n,
            n == s@.len(),
            match at_pos {
                Some(p) => p < i && s@[p as int] == '@'
                    && forall|j: int| 0 <= j < i && j != p ==> s@[j] != '@',
                None => forall|j: int| 0 <= j < i ==> s@[j] != '@',
            },
        decreases n - i,
    {
        if s[i] == '@' {
            match at_pos {
                None => {
                    at_pos = Some(i);
                },
                Some(p) => {
                    proof {
                        assert forall|k: int| !email_split_at(s@, k) by {
                            if email_split_at(s@, k) {
                                if k != p {
                                    assert(s@[p as int] != '@');
                                } else {
                                    assert(s@[i as int] != '@');
                                }
                            }
                        }
                    }
                    return false;
                },
            }
        }
        i += 1;
    }
    match at_pos {
        None => {
            proof {
                assert forall|k: int| !email_split_at(s@, k) by {
                    if email_split_at(s@, k) {
                        assert(s@[k] != '@');
                    }
                }
            }
            false
        },
        Some(p) => {
            if p == 0 || p + 1 >= n {
                proof {
                    assert forall|k: int| !email_split_at(s@, k) by {
                        if email_split_at(s@, k) && k != p as int {
                            assert(s@[p as int] != '@');
                        }
                    }
                }
                false
            } else {
                let mut j: usize = p + 1;
                while j < n
                    invariant
                        p + 1 <= j <= n,
                        n == s@.len(),
                        p < n,
                        s@[p as int] == '@',
                        forall|t: int| 0 <= t < n && t != p ==> s@[t] != '@',
                        0 < p && p + 1 < n,
                        forall|t: int| p < t < j ==> s@[t] != '.',
                    decreases n - j,
                {
                    if s[j] == '.' {
                        proof {
                            assert(email_split_at(s@, p as int));
                        }
                        return true;
                    }
                    j += 1;
                }
                proof {
                    assert forall|k: int| !email_split_at(s@, k) by {
                        if email_split_at(s@, k) {
                            if k != p as int {
                                assert(s@[p as int] != '@');
                            }
                        }
                    }
                }
                false
            }
        },
    }
}

/// Decides whether the string starts with an HTTP or HTTPS scheme.
pub fn check_url(s: &str) -> (r: bool)
    ensures
        r == url_ok(s@),
{
    let n = s.unicode_len();
    if n >= 7 && crate::schema::str_eq(s.substring_char(0, 7), "http://") {
        return true;
    }
    if n >= 8 && crate::schema::str_eq(s.substring_char(0, 8), "https://") {
        return true;
    }
    false
}

/// Decides substring containment.
pub fn contains_sub(s: &Vec<char>, p: &Vec<char>) -> (r: bool)
    ensures
        r == contains_ok(s@, p@),
{
    let n = s.len();
    let m = p.len();
    if m > n {
        return false;
    }
    let mut i: usize = 0;
    while i <= n - m
        invariant
            m <= n,
            n == s@.len(),
            m == p@.len(),
            i <= n - m + 1,
            forall|k: int| 0 <= k < i ==> #[trigger] s@.subrange(k, k + m) != p@,
        decreases n + 1 - i,
    {
        let mut j: usize = 0;
        let mut ok = true;
        while ok && j < m
            invariant
                m <= n,
                n == s@.len(),
                m == p@.len(),
                i <= n - m,
                j <= m,
                ok ==> forall|t: int| 0 <= t < j ==> s@[i + t] == p@[t],
                !ok ==> j < m && s@[i + j] != p@[j as int],
            decreases m - j, (if ok { 1int } else { 0int }),
        {
            if s[i + j] != p[j] {
                ok = false;
            } else {
                j += 1;
            }
        }
        if ok {
            proof {
                assert(s@.subrange(i as int, i + m) =~= p@);
            }
            return true;
        }
        proof {
            assert(s@.subrange(i as int, i + m)[j as int] != p@[j as int]);
        }
        i += 1;
    }
    false
}

/// The length of a string slice in UTF-8 bytes.
pub fn exec_byte_len(s: &str) -> (n: usize)
    ensures
        n == byte_len(s@),
{
    let b = s.as_bytes();
    b.len()
}

/// Applies every applicable constraint to a string value.
pub fn check_constraints_str(c: &FieldConstraints, s: &String) -> (r: bool)
    ensures
        r == str_cons_ok(*c, s@),
{
    if let Some(n) = c.min_length {
        if exec_byte_len(s.as_str()) < n {
            return false;
        }
    }
    if let Some(n) = c.max_length {
        if exec_byte_len(s.as_str()) > n {
            return false;
        }
    }
    if c.email {
        let cs = chars_of(s.as_str());
        if !check_email(&cs) {
            return false;
        }
    }
    if c.url {
        if !check_url(s.as_str()) {
            return false;
        }
    }
    if let Some(p) = &c.pattern {
        let cs = chars_of(s.as_str());
        let cp = chars_of(p.as_str());
        if !contains_sub(&cs, &cp) {
            return false;
        }
    }
    true
}

/// Applies every applicable constraint to a numeric value.
pub fn check_constraints_num(c: &FieldConstraints, n: i64) -> (r: bool)
    ensures
        r == num_cons_ok(*c, n),
{
    if let Some(m) = c.min_value {
        if n < m {
            return false;
        }
    }
    if let Some(m) = c.max_value {
        if n > m {
            return false;
        }
    }
    true
}

} // verus!
