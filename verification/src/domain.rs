//! Canonical domain names and whitespace trimming.

use vstd::prelude::*;
use crate::text::{ascii_lower, ascii_lowercase, from_chars, slice_chars, to_chars, to_ascii_lowercase};

verus! {

/// The Unicode `White_Space` characters, which `str::trim` removes.
pub open spec fn is_whitespace(c: char) -> bool {
    let v = c as u32;
    (0x9 <= v && v <= 0xD) || v == 0x20 || v == 0x85 || v == 0xA0 || v == 0x1680 || (0x2000 <= v
        && v <= 0x200A) || v == 0x2028 || v == 0x2029 || v == 0x202F || v == 0x205F || v == 0x3000
}

pub fn char_is_whitespace(c: char) -> (r: bool)
    ensures
        r == is_whitespace(c),
{
    let v = c as u32;
    (0x9 <= v && v <= 0xD) || v == 0x20 || v == 0x85 || v == 0xA0 || v == 0x1680 || (0x2000 <= v
        && v <= 0x200A) || v == 0x2028 || v == 0x2029 || v == 0x202F || v == 0x205F || v == 0x3000
}

/// The number of leading characters satisfying `is_whitespace`.
pub open spec fn leading_ws(s: Seq<char>) -> nat
    decreases s.len(),
{
    if s.len() > 0 && is_whitespace(s[0]) {
        1 + leading_ws(s.drop_first())
    } else {
        0
    }
}

/// The number of trailing characters satisfying `is_whitespace`.
pub open spec fn trailing_ws(s: Seq<char>) -> nat
    decreases s.len(),
{
    if s.len() > 0 && is_whitespace(s.last()) {
        1 + trailing_ws(s.drop_last())
    } else {
        0
    }
}

/// `str::trim`.
pub open spec fn trim(s: Seq<char>) -> Seq<char> {
    let lead = leading_ws(s);
    let rest = s.subrange(lead as int, s.len() as int);
    rest.subrange(0, rest.len() - trailing_ws(rest))
}

proof fn lemma_leading_ws(s: Seq<char>, i: int)
    requires
        0 <= i <= s.len(),
        forall|j: int| 0 <= j < i ==> is_whitespace(s[j]),
        i == s.len() || !is_whitespace(s[i]),
    ensures
        leading_ws(s) == i,
    decreases i,
{
    if i > 0 {
        assert forall|j: int| 0 <= j < i - 1 implies is_whitespace(s.drop_first()[j]) by {
            assert(s.drop_first()[j] == s[j + 1]);
        }
        lemma_leading_ws(s.drop_first(), i - 1);
    }
}

proof fn lemma_trailing_ws(s: Seq<char>, k: int)
    requires
        0 <= k <= s.len(),
        forall|j: int| s.len() - k <= j < s.len() ==> is_whitespace(s[j]),
        k == s.len() || !is_whitespace(s[s.len() - k - 1]),
    ensures
        trailing_ws(s) == k,
    decreases k,
{
    if k > 0 {
        assert forall|j: int| s.drop_last().len() - (k - 1) <= j < s.drop_last().len() implies is_whitespace(
            s.drop_last()[j],
        ) by {
            assert(s.drop_last()[j] == s[j]);
        }
        lemma_trailing_ws(s.drop_last(), k - 1);
    }
}

/// `str::trim` on characters.
pub fn trim_chars(s: &Vec<char>) -> (r: Vec<char>)
    ensures
        r@ == trim(s@),
{
    let mut start: usize = 0;
    while start < s.len() && char_is_whitespace(s[start])
        invariant
            start <= s.len(),
            forall|j: int| 0 <= j < start ==> is_whitespace(s@[j]),
        decreases s.len() - start,
    {
        start = start + 1;
    }
    proof {
        lemma_leading_ws(s@, start as int);
    }
    let rest = slice_chars(s, start, s.len());
    let mut k: usize = 0;
    while k < rest.len() && char_is_whitespace(rest[rest.len() - 1 - k])
        invariant
            k <= rest.len(),
            forall|j: int| rest@.len() - k <= j < rest@.len() ==> is_whitespace(rest@[j]),
        decreases rest.len() - k,
    {
        k = k + 1;
    }
    proof {
        lemma_trailing_ws(rest@, k as int);
    }
    slice_chars(&rest, 0, rest.len() - k)
}

/// `str::trim` on a string slice.
pub fn trim_str(s: &str) -> (r: String)
    ensures
        r@ == trim(s@),
{
    let chars = to_chars(s);
    let trimmed = trim_chars(&chars);
    from_chars(trimmed.as_slice())
}

/// The number of trailing dots.
pub open spec fn trailing_dots(s: Seq<char>) -> nat
    decreases s.len(),
{
    if s.len() > 0 && s.last() == '.' {
        1 + trailing_dots(s.drop_last())
    } else {
        0
    }
}

proof fn lemma_trailing_dots(s: Seq<char>, k: int)
    requires
        0 <= k <= s.len(),
        forall|j: int| s.len() - k <= j < s.len() ==> s[j] == '.',
        k == s.len() || s[s.len() - k - 1] != '.',
    ensures
        trailing_dots(s) == k,
    decreases k,
{
    if k > 0 {
        assert forall|j: int| s.drop_last().len() - (k - 1) <= j < s.drop_last().len() implies s.drop_last()[j] == '.' by {
            assert(s.drop_last()[j] == s[j]);
        }
        lemma_trailing_dots(s.drop_last(), k - 1);
    }
}

/// The canonical form of a domain: trimmed, without trailing dots, in ASCII lower case.
pub open spec fn canonical_domain(s: Seq<char>) -> Seq<char> {
    let t = trim(s);
    ascii_lowercase(t.subrange(0, t.len() - trailing_dots(t)))
}

/// Computes the canonical form of a domain.
pub fn canonicalize_domain(s: &str) -> (r: String)
    ensures
        r@ == canonical_domain(s@),
{
    let chars = to_chars(s);
    let t = trim_chars(&chars);
    let mut k: usize = 0;
    while k < t.len() && t[t.len() - 1 - k] == '.'
        invariant
            k <= t.len(),
            forall|j: int| t@.len() - k <= j < t@.len() ==> t@[j] == '.',
        decreases t.len() - k,
    {
        k = k + 1;
    }
    proof {
        lemma_trailing_dots(t@, k as int);
    }
    let kept = slice_chars(&t, 0, t.len() - k);
    let lowered = to_ascii_lowercase(&kept);
    from_chars(lowered.as_slice())
}

} // verus!
