//! ASCII text in byte strings: case, blanks and comma-separated lists.

use vstd::prelude::*;

verus! {

/// The byte `,`.
pub const COMMA: u8 = 0x2c;

/// Whether `b` is ASCII whitespace: a space, a tab, a line feed, a form feed
/// or a carriage return.
pub open spec fn is_blank(b: u8) -> bool {
    b == 0x20 || b == 0x09 || b == 0x0a || b == 0x0c || b == 0x0d
}

/// `b` with an ASCII capital letter turned into its small letter.
pub open spec fn lower(b: u8) -> u8 {
    if 0x41 <= b <= 0x5a {
        (b + 0x20) as u8
    } else {
        b
    }
}

/// Whether two byte strings are equal but for the case of ASCII letters.
pub open spec fn eq_ignore_case(x: Seq<u8>, y: Seq<u8>) -> bool {
    &&& x.len() == y.len()
    &&& forall|k: int| 0 <= k < x.len() ==> lower(#[trigger] x[k]) == lower(y[k])
}

/// Whether `a..b` is what is left of `value[i..j]` once the blanks at both
/// its ends are taken away.
pub open spec fn is_trimmed(value: Seq<u8>, i: int, j: int, a: int, b: int) -> bool {
    &&& i <= a <= b <= j
    &&& forall|k: int| i <= k < a ==> is_blank(#[trigger] value[k])
    &&& forall|k: int| b <= k < j ==> is_blank(#[trigger] value[k])
    &&& a < b ==> !is_blank(value[a]) && !is_blank(value[b - 1])
}

/// Whether `value[i..j]` is one element of the comma-separated list `value`:
/// it holds no comma, and a comma or an end of `value` stands on either side.
pub open spec fn is_element(value: Seq<u8>, i: int, j: int) -> bool {
    &&& 0 <= i <= j <= value.len()
    &&& (i == 0 || value[i - 1] == COMMA)
    &&& (j == value.len() || value[j] == COMMA)
    &&& forall|k: int| i <= k < j ==> #[trigger] value[k] != COMMA
}

/// Whether `value[i..j]`, with the blanks at its ends taken away, is `token`
/// but for case.
pub open spec fn trimmed_matches(value: Seq<u8>, i: int, j: int, token: Seq<u8>) -> bool {
    exists|a: int, b: int| #[trigger]
        is_trimmed(value, i, j, a, b) && eq_ignore_case(value.subrange(a, b), token)
}

/// Whether the comma-separated list `value` has an element that is `token`,
/// blanks round the element and the case of letters left aside.
pub open spec fn list_has_token(value: Seq<u8>, token: Seq<u8>) -> bool {
    exists|i: int, j: int| #[trigger]
        is_element(value, i, j) && trimmed_matches(value, i, j, token)
}

/// `b` with an ASCII capital letter turned into its small letter.
pub fn to_lower(b: u8) -> (l: u8)
    ensures
        l == lower(b),
{
    if 0x41 <= b && b <= 0x5a {
        b + 0x20
    } else {
        b
    }
}

/// Whether `b` is ASCII whitespace.
pub fn blank(b: u8) -> (r: bool)
    ensures
        r == is_blank(b),
{
    b == 0x20 || b == 0x09 || b == 0x0a || b == 0x0c || b == 0x0d
}

/// Whether `value[a..b]` is `token` but for case.
pub fn range_eq_ignore_case(value: &[u8], a: usize, b: usize, token: &[u8]) -> (r: bool)
    requires
        a <= b <= value@.len(),
    ensures
        r == eq_ignore_case(value@.subrange(a as int, b as int), token@),
{
    if b - a != token.len() {
        return false;
    }
    let ghost seg = value@.subrange(a as int, b as int);
    let mut k: usize = 0;
    while k < token.len()
        invariant
            a <= b <= value@.len(),
            b - a == token@.len(),
            seg == value@.subrange(a as int, b as int),
            0 <= k <= token@.len(),
            forall|m: int| 0 <= m < k ==> lower(#[trigger] seg[m]) == lower(token@[m]),
        decreases token@.len() - k,
    {
        if to_lower(value[a + k]) != to_lower(token[k]) {
            assert(seg[k as int] == value@[a + k]);
            return false;
        }
        assert(seg[k as int] == value@[a + k]);
        k = k + 1;
    }
    true
}

/// Whether two byte strings are equal but for the case of ASCII letters.
pub fn bytes_eq_ignore_case(x: &[u8], y: &[u8]) -> (r: bool)
    ensures
        r == eq_ignore_case(x@, y@),
{
    assert(x@.subrange(0, x@.len() as int) =~= x@);
    range_eq_ignore_case(x, 0, x.len(), y)
}

/// Whether two byte strings are equal.
pub fn bytes_eq(x: &[u8], y: &[u8]) -> (r: bool)
    ensures
        r == (x@ == y@),
{
    if x.len() != y.len() {
        return false;
    }
    let mut k: usize = 0;
    while k < x.len()
        invariant
            x@.len() == y@.len(),
            0 <= k <= x@.len(),
            forall|m: int| 0 <= m < k ==> x@[m] == y@[m],
        decreases x@.len() - k,
    {
        if x[k] != y[k] {
            return false;
        }
        k = k + 1;
    }
    assert(x@ =~= y@);
    true
}

/// The bounds of `value[i..j]` without the blanks at its ends; where nothing
/// but blanks stands there, both bounds are `j`.
pub fn trim(value: &[u8], i: usize, j: usize) -> (bounds: (usize, usize))
    requires
        i <= j <= value@.len(),
    ensures
        is_trimmed(value@, i as int, j as int, bounds.0 as int, bounds.1 as int),
        bounds.0 == bounds.1 ==> bounds.0 == j,
{
    let mut a: usize = i;
    while a < j && blank(value[a])
        invariant
            i <= a <= j <= value@.len(),
            forall|k: int| i <= k < a ==> is_blank(#[trigger] value@[k]),
        decreases j - a,
    {
        a = a + 1;
    }
    let mut b: usize = j;
    while a < b && blank(value[b - 1])
        invariant
            i <= a <= b <= j <= value@.len(),
            a < j ==> !is_blank(value@[a as int]),
            forall|k: int| b <= k < j ==> is_blank(#[trigger] value@[k]),
        decreases b - a,
    {
        b = b - 1;
    }
    (a, b)
}

/// What is left of `value[i..j]` without the blanks at its ends is the same
/// byte string, whichever bounds describe it.
pub proof fn lemma_trimmed_unique(value: Seq<u8>, i: int, j: int, a1: int, b1: int, a2: int, b2: int)
    requires
        0 <= i <= j <= value.len(),
        is_trimmed(value, i, j, a1, b1),
        is_trimmed(value, i, j, a2, b2),
    ensures
        value.subrange(a1, b1) == value.subrange(a2, b2),
{
    if a1 < b1 && a2 < b2 {
        assert(a1 == a2) by {
            if a1 < a2 {
                assert(is_blank(value[a1]));
            }
            if a2 < a1 {
                assert(is_blank(value[a2]));
            }
        }
        assert(b1 == b2) by {
            if b1 < b2 {
                assert(is_blank(value[b2 - 1]));
            }
            if b2 < b1 {
                assert(is_blank(value[b1 - 1]));
            }
        }
    } else if a1 < b1 {
        // the second bounds are empty, so every byte of the range is blank
        assert(is_blank(value[a1])) by {
            if a1 < a2 {
                assert(is_blank(value[a1]));
            } else {
                assert(b2 <= a1);
                assert(is_blank(value[a1]));
            }
        }
    } else if a2 < b2 {
        assert(is_blank(value[a2])) by {
            if a2 < a1 {
                assert(is_blank(value[a2]));
            } else {
                assert(b1 <= a2);
                assert(is_blank(value[a2]));
            }
        }
    } else {
        assert(value.subrange(a1, b1) =~= value.subrange(a2, b2));
    }
}

/// Whether `value[i..j]`, with the blanks at its ends taken away, is `token`
/// but for case.
pub fn element_matches(value: &[u8], i: usize, j: usize, token: &[u8]) -> (r: bool)
    requires
        i <= j <= value@.len(),
    ensures
        r == trimmed_matches(value@, i as int, j as int, token@),
{
    let (a, b) = trim(value, i, j);
    let r = range_eq_ignore_case(value, a, b, token);
    proof {
        if trimmed_matches(value@, i as int, j as int, token@) {
            let (a2, b2) = choose|a2: int, b2: int| #[trigger]
                is_trimmed(value@, i as int, j as int, a2, b2) && eq_ignore_case(
                    value@.subrange(a2, b2),
                    token@,
                );
            lemma_trimmed_unique(value@, i as int, j as int, a as int, b as int, a2, b2);
        }
    }
    r
}

/// Whether the comma-separated list `value` has an element that is `token`,
/// blanks round the element and the case of letters left aside.
pub fn has_token(value: &[u8], token: &[u8]) -> (r: bool)
    ensures
        r == list_has_token(value@, token@),
{
    let n: usize = value.len();
    let mut start: usize = 0;
    loop
        invariant
            n == value@.len(),
            0 <= start <= n,
            start == 0 || value@[start - 1] == COMMA,
            forall|i: int, j: int| #[trigger]
                is_element(value@, i, j) && i < start ==> !trimmed_matches(value@, i, j, token@),
        decreases n - start,
    {
        let mut end: usize = start;
        while end < n && value[end] != COMMA
            invariant
                n == value@.len(),
                start <= end <= n,
                forall|k: int| start <= k < end ==> #[trigger] value@[k] != COMMA,
            decreases n - end,
        {
            end = end + 1;
        }
        assert(is_element(value@, start as int, end as int));
        if element_matches(value, start, end, token) {
            return true;
        }
        assert forall|i: int, j: int| #[trigger]
            is_element(value@, i, j) && i <= end implies !trimmed_matches(value@, i, j, token@) by {
            if i >= start {
                if i > start {
                    assert(value@[i - 1] == COMMA);
                    assert(false);
                }
                if j < end {
                    assert(value@[j] == COMMA);
                    assert(false);
                }
                if j > end {
                    assert(value@[end as int] != COMMA);
                    assert(false);
                }
            }
        }
        if end == n {
            assert forall|i: int, j: int| #[trigger] is_element(value@, i, j) implies !trimmed_matches(
                value@,
                i,
                j,
                token@,
            ) by {}
            return false;
        }
        start = end + 1;
    }
}

} // verus!
