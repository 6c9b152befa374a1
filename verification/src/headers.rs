//! HTTP header values as the server inspects them: as text, compared
//! without regard to ASCII case, and as lists of tokens.

use vstd::prelude::*;

verus! {

/// A byte that a header value may hold when read as text: visible ASCII or
/// a tab (the rule of `http::HeaderValue::to_str`).
pub open spec fn visible_ascii(b: u8) -> bool {
    (32 <= b && b < 127) || b == 9
}

/// A header value that reads as text.
pub open spec fn header_text(s: Seq<u8>) -> bool {
    forall|i: int| 0 <= i < s.len() ==> visible_ascii(#[trigger] s[i])
}

/// ASCII lower case of a byte.
pub open spec fn lower(b: u8) -> u8 {
    if 65 <= b && b <= 90 {
        (b + 32) as u8
    } else {
        b
    }
}

/// Equality without regard to ASCII case.
pub open spec fn eq_ignore_case(a: Seq<u8>, b: Seq<u8>) -> bool {
    a.len() == b.len() && forall|i: int| 0 <= i < a.len() ==> lower(#[trigger] a[i]) == lower(b[i])
}

/// A separator of tokens in a header value: a comma or a space.
pub open spec fn is_sep(b: u8) -> bool {
    b == 44 || b == 32
}

/// `s[i..j]` is one of the pieces of `s` between separators.
pub open spec fn piece(s: Seq<u8>, i: int, j: int) -> bool {
    &&& 0 <= i <= j <= s.len()
    &&& (i == 0 || is_sep(s[i - 1]))
    &&& (j == s.len() || is_sep(s[j]))
    &&& forall|k: int| i <= k < j ==> !is_sep(#[trigger] s[k])
}

/// One of the pieces of `s` between separators equals `token` without
/// regard to ASCII case.
pub open spec fn has_token(s: Seq<u8>, token: Seq<u8>) -> bool {
    exists|i: int, j: int| piece(s, i, j) && eq_ignore_case(#[trigger] s.subrange(i, j), token)
}

fn lower_byte(b: u8) -> (r: u8)
    ensures
        r == lower(b),
{
    if 65 <= b && b <= 90 {
        b + 32
    } else {
        b
    }
}

/// Whether a header value reads as text.
pub fn is_header_text(s: &[u8]) -> (r: bool)
    ensures
        r == header_text(s@),
{
    let mut i: usize = 0;
    while i < s.len()
        invariant
            i <= s@.len(),
            forall|j: int| 0 <= j < i ==> visible_ascii(#[trigger] s@[j]),
        decreases s@.len() - i,
    {
        let b = s[i];
        if !((b >= 32 && b < 127) || b == 9) {
            return false;
        }
        i += 1;
    }
    true
}

/// Whether `s[from..to]` equals `t` without regard to ASCII case.
pub fn eq_ignore_ascii_case_at(s: &[u8], from: usize, to: usize, t: &[u8]) -> (r: bool)
    requires
        from <= to <= s@.len(),
    ensures
        r == eq_ignore_case(s@.subrange(from as int, to as int), t@),
{
    if to - from != t.len() {
        return false;
    }
    let mut i: usize = 0;
    while i < t.len()
        invariant
            from <= to <= s@.len(),
            to - from == t@.len(),
            i <= t@.len(),
            forall|j: int| 0 <= j < i ==> lower(s@[from + j]) == lower(t@[j]),
        decreases t@.len() - i,
    {
        if lower_byte(s[from + i]) != lower_byte(t[i]) {
            assert(lower(s@.subrange(from as int, to as int)[i as int]) != lower(t@[i as int]));
            return false;
        }
        i += 1;
    }
    true
}

/// Whether `a` equals `b` without regard to ASCII case.
pub fn eq_ignore_ascii_case(a: &[u8], b: &[u8]) -> (r: bool)
    ensures
        r == eq_ignore_case(a@, b@),
{
    let r = eq_ignore_ascii_case_at(a, 0, a.len(), b);
    assert(a@.subrange(0, a@.len() as int) =~= a@);
    r
}

/// Whether one of the comma- or space-separated pieces of `s` equals
/// `token` without regard to ASCII case.
pub fn contains_token(s: &[u8], token: &[u8]) -> (r: bool)
    ensures
        r == has_token(s@, token@),
{
    let mut start: usize = 0;
    loop
        invariant
            start <= s@.len(),
            start == 0 || is_sep(s@[start - 1]),
            forall|i: int, j: int|
                i < start && piece(s@, i, j) ==> !eq_ignore_case(#[trigger] s@.subrange(i, j), token@),
        decreases s@.len() - start,
    {
        let mut end = start;
        while end < s.len() && s[end] != 44 && s[end] != 32
            invariant
                start <= end <= s@.len(),
                forall|k: int| start <= k < end ==> !is_sep(#[trigger] s@[k]),
            decreases s@.len() - end,
        {
            end += 1;
        }
        assert(piece(s@, start as int, end as int));
        if eq_ignore_ascii_case_at(s, start, end, token) {
            return true;
        }
        proof {
            assert forall|i: int, j: int|
                i <= end && piece(s@, i, j) implies !eq_ignore_case(
                #[trigger] s@.subrange(i, j),
                token@,
            ) by {
                if i == start {
                    if j < end {
                        assert(is_sep(s@[j]));
                    } else if j > end {
                        assert(!is_sep(s@[end as int]));
                    }
                } else if i > start {
                    assert(is_sep(s@[i - 1]));
                    assert(i - 1 >= end);
                }
            }
        }
        if end >= s.len() {
            proof {
                assert forall|i: int, j: int| piece(s@, i, j) implies !eq_ignore_case(
                    #[trigger] s@.subrange(i, j),
                    token@,
                ) by {}
            }
            return false;
        }
        start = end + 1;
    }
}

} // verus!
