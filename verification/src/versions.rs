//! Schema version parsing and ordering.
//!
//! `main` is the newest version of all; numbered versions are ordered by
//! `major.minor.patch`; anything else falls back to byte-wise string order.

use crate::error::str_equal;
use std::cmp::Ordering;
use vstd::prelude::*;
use vstd::string::StringSliceAdditionalSpecFns;

verus! {

/// Whether `b` is an ASCII digit.
pub open spec fn is_digit_byte(b: u8) -> bool {
    48 <= b <= 57
}

/// The number that a run of ASCII digits spells.
pub open spec fn digits_value(s: Seq<u8>) -> nat
    decreases s.len(),
{
    if s.len() == 0 {
        0
    } else {
        digits_value(s.drop_last()) * 10 + (s.last() - 48) as nat
    }
}

/// Whether every byte of `s` is an ASCII digit.
pub open spec fn all_digits(s: Seq<u8>) -> bool {
    forall|i: int| 0 <= i < s.len() ==> is_digit_byte(#[trigger] s[i])
}

/// `s` without one leading `+`.
pub open spec fn unsigned_digits(s: Seq<u8>) -> Seq<u8> {
    if s.len() > 0 && s[0] == 43 {
        s.drop_first()
    } else {
        s
    }
}

/// What `<u32 as FromStr>::from_str` gives for the bytes `s`: an optional
/// `+`, then one or more ASCII digits whose value fits in a `u32`.
pub open spec fn parsed_u32(s: Seq<u8>) -> Option<u32> {
    let d = unsigned_digits(s);
    if d.len() > 0 && all_digits(d) && digits_value(d) <= u32::MAX {
        Some(digits_value(d) as u32)
    } else {
        None
    }
}

/// The longest prefix of `s` made of ASCII digits.
pub open spec fn leading_digits(s: Seq<u8>) -> Seq<u8>
    decreases s.len(),
{
    if s.len() > 0 && is_digit_byte(s[0]) {
        seq![s[0]] + leading_digits(s.drop_first())
    } else {
        seq![]
    }
}

/// The first index at or after `start` where `s` holds `b`.
pub open spec fn next_index(s: Seq<u8>, b: u8, start: int) -> Option<int>
    decreases s.len() - start,
{
    if start < 0 || start >= s.len() {
        None
    } else if s[start] == b {
        Some(start)
    } else {
        next_index(s, b, start + 1)
    }
}

/// The bounds of the first three `.`-separated fields of `s`: the end of the
/// first, the end of the second and the end of the third. `None` when `s` has
/// fewer than three fields.
pub open spec fn field_bounds(s: Seq<u8>) -> Option<(int, int, int)> {
    match next_index(s, 46, 0) {
        None => None,
        Some(d1) => match next_index(s, 46, d1 + 1) {
            None => None,
            Some(d2) => match next_index(s, 46, d2 + 1) {
                None => Some((d1, d2, s.len() as int)),
                Some(d3) => Some((d1, d2, d3)),
            },
        },
    }
}

/// The `(major, minor, patch)` of a version's bytes: the first three
/// `.`-separated fields parsed as `u32`, the patch cut at its first non-digit
/// so that a pre-release suffix is ignored.
pub open spec fn semver_of(s: Seq<u8>) -> Option<(u32, u32, u32)> {
    match field_bounds(s) {
        None => None,
        Some((d1, d2, end)) => {
            let major = parsed_u32(s.subrange(0, d1));
            let minor = parsed_u32(s.subrange(d1 + 1, d2));
            let patch = parsed_u32(leading_digits(s.subrange(d2 + 1, end)));
            if major is Some && minor is Some && patch is Some {
                Some((major->0, minor->0, patch->0))
            } else {
                None
            }
        },
    }
}

proof fn lemma_next_index_bounds(s: Seq<u8>, b: u8, start: int)
    ensures
        next_index(s, b, start) matches Some(i) ==> start <= i < s.len() && s[i] == b && forall|
            k: int,
        | start <= k < i ==> s[k] != b,
        next_index(s, b, start) is None ==> forall|k: int| 0 <= start <= k < s.len() ==> s[k] != b,
    decreases s.len() - start,
{
    if start >= 0 && start < s.len() && s[start] != b {
        lemma_next_index_bounds(s, b, start + 1);
    }
}

fn find_byte(s: &[u8], b: u8, start: usize) -> (r: Option<usize>)
    ensures
        match r {
            Some(i) => next_index(s@, b, start as int) == Some(i as int) && i < s.len(),
            None => next_index(s@, b, start as int) is None,
        },
{
    let mut i = start;
    while i < s.len()
        invariant
            start <= i,
            next_index(s@, b, start as int) == next_index(s@, b, i as int),
        decreases s@.len() - i,
    {
        if s[i] == b {
            proof {
                lemma_next_index_bounds(s@, b, i as int);
            }
            return Some(i);
        }
        i = i + 1;
    }
    None
}

proof fn lemma_digits_value_step(s: Seq<u8>, i: int)
    requires
        0 <= i < s.len(),
    ensures
        digits_value(s.take(i + 1)) == digits_value(s.take(i)) * 10 + (s[i] - 48) as nat,
{
    assert(s.take(i + 1).drop_last() =~= s.take(i));
}

/// Parse the bytes `s[lo..hi]` as `<u32 as FromStr>::from_str` does.
fn parse_u32_range(s: &[u8], lo: usize, hi: usize) -> (r: Option<u32>)
    requires
        lo <= hi <= s@.len(),
    ensures
        r == parsed_u32(s@.subrange(lo as int, hi as int)),
{
    let ghost whole = s@.subrange(lo as int, hi as int);
    let mut start = lo;
    if lo < hi && s[lo] == 43 {
        start = lo + 1;
    }
    let ghost d = s@.subrange(start as int, hi as int);
    assert(unsigned_digits(whole) =~= d);
    if start == hi {
        return None;
    }
    let mut acc: u64 = 0;
    let mut overflow = false;
    let mut i = start;
    while i < hi
        invariant
            start <= i <= hi <= s@.len(),
            d == s@.subrange(start as int, hi as int),
            whole == s@.subrange(lo as int, hi as int),
            unsigned_digits(whole) == d,
            forall|k: int| start <= k < i ==> is_digit_byte(#[trigger] s@[k]),
            overflow == (digits_value(d.take(i - start)) > u32::MAX),
            !overflow ==> acc == digits_value(d.take(i - start)),
        decreases hi - i,
    {
        let c = s[i];
        if c < 48 || c > 57 {
            assert(!is_digit_byte(d[i - start]));
            return None;
        }
        proof {
            lemma_digits_value_step(d, i - start);
        }
        if !overflow {
            let next = acc * 10 + (c - 48) as u64;
            if next > 4_294_967_295 {
                overflow = true;
            } else {
                acc = next;
            }
        }
        i = i + 1;
    }
    assert(d.take(hi - start) =~= d);
    assert(all_digits(d)) by {
        assert forall|k: int| 0 <= k < d.len() implies is_digit_byte(#[trigger] d[k]) by {
            assert(d[k] == s@[start + k]);
        }
    }
    if overflow {
        None
    } else {
        Some(acc as u32)
    }
}

proof fn lemma_leading_digits(s: Seq<u8>, k: int)
    requires
        0 <= k <= s.len(),
        forall|i: int| 0 <= i < k ==> is_digit_byte(#[trigger] s[i]),
        k == s.len() || !is_digit_byte(s[k]),
    ensures
        leading_digits(s) == s.take(k),
    decreases k,
{
    if k == 0 {
        assert(s.take(0) =~= Seq::<u8>::empty());
    } else {
        let t = s.drop_first();
        assert forall|i: int| 0 <= i < k - 1 implies is_digit_byte(#[trigger] t[i]) by {
            assert(t[i] == s[i + 1]);
        }
        lemma_leading_digits(t, k - 1);
        assert(seq![s[0]] + t.take(k - 1) =~= s.take(k));
    }
}

/// Parse `major.minor.patch` from a version string. Fields beyond the third
/// are ignored, and so is anything after the leading digits of the patch.
pub fn parse_semver(value: &str) -> (r: Option<(u32, u32, u32)>)
    ensures
        r == semver_of(value.spec_bytes()),
{
    let s = value.as_bytes();
    let d1 = match find_byte(s, 46, 0) {
        Some(i) => i,
        None => return None,
    };
    proof {
        lemma_next_index_bounds(s@, 46, 0);
    }
    let d2 = match find_byte(s, 46, d1 + 1) {
        Some(i) => i,
        None => return None,
    };
    proof {
        lemma_next_index_bounds(s@, 46, d1 + 1);
    }
    let end = match find_byte(s, 46, d2 + 1) {
        Some(i) => i,
        None => s.len(),
    };
    proof {
        lemma_next_index_bounds(s@, 46, d2 + 1);
    }
    let major = parse_u32_range(s, 0, d1);
    let minor = parse_u32_range(s, d1 + 1, d2);
    let mut k = d2 + 1;
    while k < end && s[k] >= 48 && s[k] <= 57
        invariant
            d2 + 1 <= k <= end <= s@.len(),
            forall|i: int| d2 + 1 <= i < k ==> is_digit_byte(#[trigger] s@[i]),
        decreases end - k,
    {
        k = k + 1;
    }
    proof {
        let p = s@.subrange(d2 + 1, end as int);
        assert forall|i: int| 0 <= i < k - (d2 + 1) implies is_digit_byte(#[trigger] p[i]) by {
            assert(p[i] == s@[i + d2 + 1]);
        }
        if k < end {
            assert(p[k - (d2 + 1)] == s@[k as int]);
        }
        lemma_leading_digits(p, k - (d2 + 1));
        assert(p.take(k - (d2 + 1)) =~= s@.subrange(d2 + 1, k as int));
    }
    let patch = parse_u32_range(s, d2 + 1, k);
    match (major, minor, patch) {
        (Some(a), Some(b), Some(c)) => Some((a, b, c)),
        _ => None,
    }
}

/// Byte-wise lexicographic order of two byte strings: -1, 0 or 1.
pub open spec fn lex_order(a: Seq<u8>, b: Seq<u8>) -> int
    decreases a.len(),
{
    if a.len() == 0 {
        if b.len() == 0 {
            0
        } else {
            -1
        }
    } else if b.len() == 0 {
        1
    } else if a[0] < b[0] {
        -1
    } else if a[0] > b[0] {
        1
    } else {
        lex_order(a.drop_first(), b.drop_first())
    }
}

/// Lexicographic order of two `(major, minor, patch)` triples: -1, 0 or 1.
pub open spec fn triple_order(x: (u32, u32, u32), y: (u32, u32, u32)) -> int {
    if x.0 != y.0 {
        if x.0 < y.0 {
            -1
        } else {
            1
        }
    } else if x.1 != y.1 {
        if x.1 < y.1 {
            -1
        } else {
            1
        }
    } else if x.2 != y.2 {
        if x.2 < y.2 {
            -1
        } else {
            1
        }
    } else {
        0
    }
}

/// The order of two schema versions: -1 when `a` is older, 0 when equal, 1
/// when newer. `main` is newer than every other version; two parseable
/// versions compare by `(major, minor, patch)`; otherwise the strings compare
/// byte-wise.
pub open spec fn version_order(a: &str, b: &str) -> int {
    if a@ == "main"@ && b@ == "main"@ {
        0
    } else if a@ == "main"@ {
        1
    } else if b@ == "main"@ {
        -1
    } else {
        match (semver_of(a.spec_bytes()), semver_of(b.spec_bytes())) {
            (Some(x), Some(y)) => triple_order(x, y),
            _ => lex_order(a.spec_bytes(), b.spec_bytes()),
        }
    }
}

/// The number -1, 0 or 1 that an ordering stands for.
pub open spec fn order_sign(o: Ordering) -> int {
    match o {
        Ordering::Less => -1,
        Ordering::Equal => 0,
        Ordering::Greater => 1,
    }
}

/// The length of the longest common prefix of `a` and `b`.
fn common_prefix_len(a: &[u8], b: &[u8]) -> (i: usize)
    ensures
        i <= a@.len(),
        i <= b@.len(),
        lex_order(a@, b@) == lex_order(a@.skip(i as int), b@.skip(i as int)),
        i < a@.len() && i < b@.len() ==> a@[i as int] != b@[i as int],
{
    let mut i: usize = 0;
    assert(a@.skip(0) =~= a@);
    assert(b@.skip(0) =~= b@);
    while i < a.len() && i < b.len() && a[i] == b[i]
        invariant
            i <= a@.len(),
            i <= b@.len(),
            lex_order(a@, b@) == lex_order(a@.skip(i as int), b@.skip(i as int)),
        decreases a@.len() - i,
    {
        proof {
            assert(a@.skip(i as int).drop_first() =~= a@.skip(i + 1));
            assert(b@.skip(i as int).drop_first() =~= b@.skip(i + 1));
        }
        i = i + 1;
    }
    i
}

fn bytes_order(a: &[u8], b: &[u8]) -> (r: Ordering)
    ensures
        order_sign(r) == lex_order(a@, b@),
{
    let i = common_prefix_len(a, b);
    if i == a.len() {
        if i == b.len() {
            Ordering::Equal
        } else {
            Ordering::Less
        }
    } else if i == b.len() {
        Ordering::Greater
    } else if a[i] < b[i] {
        Ordering::Less
    } else {
        Ordering::Greater
    }
}

fn triple_order_of(x: (u32, u32, u32), y: (u32, u32, u32)) -> (r: Ordering)
    ensures
        order_sign(r) == triple_order(x, y),
{
    if x.0 != y.0 {
        if x.0 < y.0 {
            Ordering::Less
        } else {
            Ordering::Greater
        }
    } else if x.1 != y.1 {
        if x.1 < y.1 {
            Ordering::Less
        } else {
            Ordering::Greater
        }
    } else if x.2 != y.2 {
        if x.2 < y.2 {
            Ordering::Less
        } else {
            Ordering::Greater
        }
    } else {
        Ordering::Equal
    }
}

/// Compare two schema versions (see `version_order`).
pub fn compare_versions(a: &str, b: &str) -> (r: Ordering)
    ensures
        order_sign(r) == version_order(a, b),
{
    let a_main = str_equal(a, "main");
    let b_main = str_equal(b, "main");
    if a_main && b_main {
        Ordering::Equal
    } else if a_main {
        Ordering::Greater
    } else if b_main {
        Ordering::Less
    } else {
        match (parse_semver(a), parse_semver(b)) {
            (Some(x), Some(y)) => triple_order_of(x, y),
            _ => bytes_order(a.as_bytes(), b.as_bytes()),
        }
    }
}

/// Whether version `a` is newer than version `b`.
pub fn is_newer(a: &str, b: &str) -> (r: bool)
    ensures
        r == (version_order(a, b) == 1),
{
    match compare_versions(a, b) {
        Ordering::Greater => true,
        _ => false,
    }
}

/// `main` is newer than every other version, and two versions that both
/// parse as major.minor.patch are ordered by major number first, then minor,
/// then patch: the one with the larger major number is the newer whatever
/// the rest, and equal triples are the same version.
pub proof fn law_version_order_is_lexicographic(a: &str, b: &str)
    ensures
        a@ == "main"@ && b@ != "main"@ ==> version_order(a, b) == 1,
        a@ != "main"@ && b@ == "main"@ ==> version_order(a, b) == -1,
        a@ != "main"@ && b@ != "main"@ ==> (semver_of(a.spec_bytes()) matches Some(x) ==> (semver_of(
            b.spec_bytes(),
        ) matches Some(y) ==> {
            &&& version_order(a, b) == 1 <==> (x.0 > y.0 || (x.0 == y.0 && x.1 > y.1) || (x.0
                == y.0 && x.1 == y.1 && x.2 > y.2))
            &&& version_order(a, b) == -1 <==> (x.0 < y.0 || (x.0 == y.0 && x.1 < y.1) || (x.0
                == y.0 && x.1 == y.1 && x.2 < y.2))
            &&& version_order(a, b) == 0 <==> x == y
        })),
{
}

} // verus!
