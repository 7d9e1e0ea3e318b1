//! Matching a configured wire token against an `Accept-Encoding` header.
//!
//! The header is split on commas, each element is trimmed of surrounding
//! whitespace, and the result is compared byte for byte against the token.
//! This is a literal match: no quality weights, no wildcards.

use vstd::prelude::*;

verus! {

/// The comma byte that separates header elements.
pub open spec fn is_comma(b: u8) -> bool {
    b == 44
}

/// ASCII whitespace, as trimmed from the ends of a header element
/// (space, tab, line feed, vertical tab, form feed, carriage return).
pub open spec fn is_ws(b: u8) -> bool {
    b == 32 || (9 <= b && b <= 13)
}

/// `s` with leading and trailing whitespace removed.
pub open spec fn trim_ws(s: Seq<u8>) -> Seq<u8>
    decreases s.len(),
{
    if s.len() == 0 {
        s
    } else if is_ws(s[0]) {
        trim_ws(s.drop_first())
    } else if is_ws(s[s.len() - 1]) {
        trim_ws(s.drop_last())
    } else {
        s
    }
}

/// The index of the first comma in `s`, or `s.len()` if there is none.
pub open spec fn first_comma(s: Seq<u8>) -> int
    decreases s.len(),
{
    if s.len() == 0 {
        0
    } else if is_comma(s[0]) {
        0
    } else {
        1 + first_comma(s.drop_first())
    }
}

/// The comma-separated elements of `s`, commas removed, in order.
pub open spec fn split_commas(s: Seq<u8>) -> Seq<Seq<u8>>
    decreases s.len(),
{
    let f = first_comma(s);
    if 0 <= f && f < s.len() {
        seq![s.take(f)] + split_commas(s.skip(f + 1))
    } else {
        seq![s]
    }
}

/// Whether some comma-separated element of `header`, once trimmed of
/// surrounding whitespace, equals `token` exactly.
pub open spec fn accepts(header: Seq<u8>, token: Seq<u8>) -> bool {
    exists|k: int| 0 <= k < split_commas(header).len() && trim_ws(split_commas(header)[k]) == token
}

proof fn lemma_first_comma_bounds(s: Seq<u8>)
    ensures
        0 <= first_comma(s) <= s.len(),
        forall|j: int| 0 <= j < first_comma(s) ==> !is_comma(s[j]),
        first_comma(s) < s.len() ==> is_comma(s[first_comma(s)]),
    decreases s.len(),
{
    if s.len() == 0 {
    } else if is_comma(s[0]) {
    } else {
        lemma_first_comma_bounds(s.drop_first());
        assert forall|j: int| 0 <= j < first_comma(s) implies !is_comma(s[j]) by {
            if j > 0 {
                assert(s[j] == s.drop_first()[j - 1]);
            }
        }
    }
}

proof fn lemma_first_comma_at(s: Seq<u8>, f: int)
    requires
        0 <= f <= s.len(),
        forall|j: int| 0 <= j < f ==> !is_comma(s[j]),
        f < s.len() ==> is_comma(s[f]),
    ensures
        first_comma(s) == f,
    decreases f,
{
    if s.len() == 0 {
    } else if f == 0 {
    } else {
        assert(!is_comma(s[0]));
        assert forall|j: int| 0 <= j < f - 1 implies !is_comma(s.drop_first()[j]) by {
            assert(s.drop_first()[j] == s[j + 1]);
        }
        if f - 1 < s.drop_first().len() {
            assert(s.drop_first()[f - 1] == s[f]);
        }
        lemma_first_comma_at(s.drop_first(), f - 1);
    }
}

/// Unfolds `accepts` by one header element: the token is accepted exactly
/// when the first element matches it, or a later element does.
proof fn lemma_accepts_unfold(s: Seq<u8>, token: Seq<u8>)
    ensures
        first_comma(s) == s.len() ==> accepts(s, token) == (trim_ws(s) == token),
        first_comma(s) < s.len() ==> accepts(s, token) == (trim_ws(s.take(first_comma(s)))
            == token || accepts(s.skip(first_comma(s) + 1), token)),
{
    lemma_first_comma_bounds(s);
    let f = first_comma(s);
    if f == s.len() {
        assert(split_commas(s) =~= seq![s]);
        if trim_ws(s) == token {
            assert(trim_ws(split_commas(s)[0]) == token);
        }
    } else {
        let rest = split_commas(s.skip(f + 1));
        assert(split_commas(s) =~= seq![s.take(f)] + rest);
        if accepts(s, token) {
            let k = choose|k: int|
                0 <= k < split_commas(s).len() && trim_ws(split_commas(s)[k]) == token;
            if k == 0 {
                assert(trim_ws(s.take(f)) == token);
            } else {
                assert(split_commas(s)[k] == rest[k - 1]);
                assert(accepts(s.skip(f + 1), token));
            }
        }
        if trim_ws(s.take(f)) == token {
            assert(trim_ws(split_commas(s)[0]) == token);
            assert(accepts(s, token));
        }
        if accepts(s.skip(f + 1), token) {
            let k = choose|k: int| 0 <= k < rest.len() && trim_ws(rest[k]) == token;
            assert(split_commas(s)[k + 1] == rest[k]);
            assert(accepts(s, token));
        }
    }
}

/// Compare `a[lo..hi]` byte for byte against `token`.
fn range_eq(a: &[u8], lo: usize, hi: usize, token: &[u8]) -> (r: bool)
    requires
        lo <= hi <= a@.len(),
    ensures
        r == (a@.subrange(lo as int, hi as int) == token@),
{
    if hi - lo != token.len() {
        proof {
            assert(a@.subrange(lo as int, hi as int).len() != token@.len());
        }
        return false;
    }
    let mut i: usize = 0;
    while i < token.len()
        invariant
            lo <= hi <= a@.len(),
            hi - lo == token@.len(),
            i <= token@.len(),
            forall|j: int| 0 <= j < i ==> a@[lo + j] == token@[j],
        decreases token@.len() - i,
    {
        if a[lo + i] != token[i] {
            proof {
                assert(a@.subrange(lo as int, hi as int)[i as int] != token@[i as int]);
            }
            return false;
        }
        i += 1;
    }
    proof {
        assert(a@.subrange(lo as int, hi as int) =~= token@);
    }
    true
}

/// Whether the element `a[lo..hi]`, trimmed of surrounding whitespace,
/// equals `token`.
fn trimmed_range_eq(a: &[u8], lo: usize, hi: usize, token: &[u8]) -> (r: bool)
    requires
        lo <= hi <= a@.len(),
    ensures
        r == (trim_ws(a@.subrange(lo as int, hi as int)) == token@),
{
    let ghost orig = a@.subrange(lo as int, hi as int);
    let mut lo = lo;
    let mut hi = hi;
    while lo < hi && is_ws_byte(a[lo])
        invariant
            lo <= hi <= a@.len(),
            trim_ws(a@.subrange(lo as int, hi as int)) == trim_ws(orig),
        decreases hi - lo,
    {
        proof {
            let cur = a@.subrange(lo as int, hi as int);
            assert(cur.drop_first() =~= a@.subrange(lo + 1, hi as int));
        }
        lo += 1;
    }
    while lo < hi && is_ws_byte(a[hi - 1])
        invariant
            lo <= hi <= a@.len(),
            trim_ws(a@.subrange(lo as int, hi as int)) == trim_ws(orig),
            lo < hi ==> !is_ws(a@[lo as int]),
        decreases hi - lo,
    {
        proof {
            let cur = a@.subrange(lo as int, hi as int);
            assert(cur.drop_last() =~= a@.subrange(lo as int, hi - 1));
        }
        hi -= 1;
    }
    proof {
        let cur = a@.subrange(lo as int, hi as int);
        if lo < hi {
            assert(cur[0] == a@[lo as int]);
            assert(cur[cur.len() - 1] == a@[hi - 1]);
        }
        assert(trim_ws(cur) == cur);
    }
    range_eq(a, lo, hi, token)
}

/// Executable check for [`is_ws`].
fn is_ws_byte(b: u8) -> (r: bool)
    ensures
        r == is_ws(b),
{
    b == 32 || (9 <= b && b <= 13)
}

/// Whether some comma-separated element of `header`, trimmed of surrounding
/// whitespace, equals `token` exactly.
pub fn accepts_token(header: &[u8], token: &[u8]) -> (r: bool)
    ensures
        r == accepts(header@, token@),
{
    proof {
        assert(header@.skip(0) =~= header@);
    }
    let mut start: usize = 0;
    loop
        invariant
            start <= header@.len(),
            accepts(header@, token@) == accepts(header@.skip(start as int), token@),
        decreases header@.len() - start,
    {
        let ghost suffix = header@.skip(start as int);
        let mut i = start;
        while i < header.len() && header[i] != 44
            invariant
                start <= i <= header@.len(),
                forall|j: int| start <= j < i ==> !is_comma(header@[j]),
            decreases header@.len() - i,
        {
            i += 1;
        }
        proof {
            assert forall|j: int| 0 <= j < i - start implies !is_comma(suffix[j]) by {
                assert(suffix[j] == header@[start + j]);
            }
            if i < header@.len() {
                assert(suffix[i - start] == header@[i as int]);
            }
            lemma_first_comma_at(suffix, i - start);
            lemma_accepts_unfold(suffix, token@);
            assert(suffix.take(i - start) =~= header@.subrange(start as int, i as int));
        }
        if trimmed_range_eq(header, start, i, token) {
            proof {
                if i - start < suffix.len() {
                    assert(accepts(suffix, token@));
                } else {
                    assert(suffix.take(i - start) =~= suffix);
                }
            }
            return true;
        }
        if i == header.len() {
            proof {
                assert(suffix.take(i - start) =~= suffix);
            }
            return false;
        }
        proof {
            assert(suffix.skip(i - start + 1) =~= header@.skip(i + 1));
        }
        start = i + 1;
    }
}

} // verus!
