//! Byte-string utilities.
//!
//! All names, paths and messages in this crate are UTF-8 bytes, so the
//! heuristics over them (case folding, substring search, token replacement,
//! joining) are ordinary verified loops over `u8` slices.

use vstd::prelude::*;
use vstd::string::StringSliceAdditionalSpecFns;

verus! {

/// The placeholder token substituted by the current user's name in path
/// patterns.
pub open spec fn username_token() -> Seq<u8> {
    "%USERNAME%".spec_bytes()
}

/// ASCII upper-case letters are folded to lower case; every other byte is
/// left alone.
pub open spec fn lower_byte(b: u8) -> u8 {
    if 65 <= b <= 90 {
        (b + 32) as u8
    } else {
        b
    }
}

/// Byte-wise ASCII lower-casing of a whole sequence.
pub open spec fn lower_seq(s: Seq<u8>) -> Seq<u8> {
    s.map_values(|b: u8| lower_byte(b))
}

/// `p` occurs in `s` at offset `i`.
pub open spec fn matches_at(s: Seq<u8>, p: Seq<u8>, i: int) -> bool {
    0 <= i && i + p.len() <= s.len() && s.subrange(i, i + p.len() as int) == p
}

/// `s` begins with `p`.
pub open spec fn seq_starts_with(s: Seq<u8>, p: Seq<u8>) -> bool {
    matches_at(s, p, 0)
}

/// `s` ends with `p`.
pub open spec fn seq_ends_with(s: Seq<u8>, p: Seq<u8>) -> bool {
    p.len() <= s.len() && matches_at(s, p, s.len() - p.len())
}

/// `p` occurs somewhere in `s`.
pub open spec fn seq_contains(s: Seq<u8>, p: Seq<u8>) -> bool {
    exists|i: int| matches_at(s, p, i)
}

/// `i` is the offset of the first occurrence of `p` in `s`.
pub open spec fn first_occurrence(s: Seq<u8>, p: Seq<u8>, i: int) -> bool {
    matches_at(s, p, i) && forall|j: int| 0 <= j < i ==> !matches_at(s, p, j)
}

/// `s` with every non-overlapping occurrence of `pat` replaced by `rep`,
/// scanning left to right.  An empty pattern replaces nothing.
pub open spec fn replaced(s: Seq<u8>, pat: Seq<u8>, rep: Seq<u8>) -> Seq<u8>
    decreases s.len(),
{
    if pat.len() == 0 || s.len() < pat.len() {
        s
    } else if seq_starts_with(s, pat) {
        rep + replaced(s.skip(pat.len() as int), pat, rep)
    } else {
        seq![s[0]] + replaced(s.skip(1), pat, rep)
    }
}

/// The elements of `parts` in order with `sep` between neighbours.
pub open spec fn joined(parts: Seq<Seq<u8>>, sep: Seq<u8>) -> Seq<u8>
    decreases parts.len(),
{
    if parts.len() == 0 {
        Seq::empty()
    } else if parts.len() == 1 {
        parts[0]
    } else {
        joined(parts.drop_last(), sep) + sep + parts.last()
    }
}

/// Fold a byte slice to ASCII lower case.
pub fn to_lower(s: &[u8]) -> (r: Vec<u8>)
    ensures
        r@ == lower_seq(s@),
{
    let mut r: Vec<u8> = Vec::new();
    let mut i: usize = 0;
    while i < s.len()
        invariant
            i <= s@.len(),
            r@ == lower_seq(s@.subrange(0, i as int)),
        decreases s@.len() - i,
    {
        let b = s[i];
        if 65 <= b && b <= 90 {
            r.push(b + 32);
        } else {
            r.push(b);
        }
        i = i + 1;
        proof {
            assert(s@.subrange(0, i as int) =~= s@.subrange(0, i - 1).push(s@[i - 1]));
            assert(lower_seq(s@.subrange(0, i as int)) =~= lower_seq(
                s@.subrange(0, i - 1),
            ).push(lower_byte(s@[i - 1])));
        }
    }
    proof {
        assert(s@.subrange(0, s@.len() as int) =~= s@);
    }
    r
}

/// Does `p` occur in `s` at offset `i`?
pub fn match_at(s: &[u8], p: &[u8], i: usize) -> (r: bool)
    ensures
        r == matches_at(s@, p@, i as int),
{
    if s.len() < p.len() || i > s.len() - p.len() {
        proof {
            assert(!matches_at(s@, p@, i as int));
        }
        return false;
    }
    let mut k: usize = 0;
    while k < p.len()
        invariant
            k <= p@.len(),
            i + p@.len() <= s@.len(),
            s@.len() <= usize::MAX,
            forall|j: int| 0 <= j < k ==> s@[i + j] == p@[j],
        decreases p@.len() - k,
    {
        if s[i + k] != p[k] {
            proof {
                assert(s@.subrange(i as int, i + p@.len() as int)[k as int] != p@[k as int]);
            }
            return false;
        }
        k = k + 1;
    }
    proof {
        assert(s@.subrange(i as int, i + p@.len() as int) =~= p@);
    }
    true
}

/// Offset of the first occurrence of `p` in `s`, if any.
pub fn find_first(s: &[u8], p: &[u8]) -> (r: Option<usize>)
    ensures
        match r {
            Some(i) => first_occurrence(s@, p@, i as int),
            None => !seq_contains(s@, p@),
        },
{
    if p.len() > s.len() {
        proof {
            assert(forall|i: int| !matches_at(s@, p@, i));
        }
        return None;
    }
    if p.len() == 0 {
        proof {
            assert(s@.subrange(0, 0) =~= p@);
        }
        return Some(0);
    }
    let last: usize = s.len() - p.len();
    let mut i: usize = 0;
    while i <= last
        invariant
            i <= last + 1,
            p@.len() >= 1,
            last + p@.len() == s@.len(),
            s@.len() <= usize::MAX,
            forall|j: int| 0 <= j < i ==> !matches_at(s@, p@, j),
        decreases last - i + 1,
    {
        if match_at(s, p, i) {
            return Some(i);
        }
        i = i + 1;
    }
    proof {
        assert(forall|j: int| j > last ==> !matches_at(s@, p@, j));
    }
    None
}

/// Does `p` occur anywhere in `s`?
pub fn contains_bytes(s: &[u8], p: &[u8]) -> (r: bool)
    ensures
        r == seq_contains(s@, p@),
{
    match find_first(s, p) {
        Some(_) => true,
        None => false,
    }
}

/// Does `s` begin with `p`?
pub fn starts_with_bytes(s: &[u8], p: &[u8]) -> (r: bool)
    ensures
        r == seq_starts_with(s@, p@),
{
    match_at(s, p, 0)
}

/// Does `s` end with `p`?
pub fn ends_with_bytes(s: &[u8], p: &[u8]) -> (r: bool)
    ensures
        r == seq_ends_with(s@, p@),
{
    if p.len() > s.len() {
        return false;
    }
    match_at(s, p, s.len() - p.len())
}

/// Are two byte strings equal?
pub fn bytes_eq(a: &[u8], b: &[u8]) -> (r: bool)
    ensures
        r == (a@ == b@),
{
    if a.len() != b.len() {
        return false;
    }
    let mut i: usize = 0;
    while i < a.len()
        invariant
            i <= a@.len(),
            a@.len() == b@.len(),
            forall|j: int| 0 <= j < i ==> a@[j] == b@[j],
        decreases a@.len() - i,
    {
        if a[i] != b[i] {
            return false;
        }
        i = i + 1;
    }
    proof {
        assert(a@ =~= b@);
    }
    true
}

/// Does `s` contain the byte `b`?
pub fn contains_byte(s: &[u8], b: u8) -> (r: bool)
    ensures
        r == s@.contains(b),
{
    let mut i: usize = 0;
    while i < s.len()
        invariant
            i <= s@.len(),
            forall|j: int| 0 <= j < i ==> s@[j] != b,
        decreases s@.len() - i,
    {
        if s[i] == b {
            return true;
        }
        i = i + 1;
    }
    false
}

/// Replace every non-overlapping occurrence of `pat` in `s` by `rep`,
/// scanning left to right.
pub fn replace_bytes(s: &[u8], pat: &[u8], rep: &[u8]) -> (r: Vec<u8>)
    requires
        pat@.len() > 0,
    ensures
        r@ == replaced(s@, pat@, rep@),
{
    let mut r: Vec<u8> = Vec::new();
    let mut i: usize = 0;
    proof {
        assert(s@.subrange(0, s@.len() as int) =~= s@);
        assert(Seq::<u8>::empty() + replaced(s@, pat@, rep@) =~= replaced(s@, pat@, rep@));
    }
    while i < s.len()
        invariant
            i <= s@.len(),
            pat@.len() > 0,
            replaced(s@, pat@, rep@) == r@ + replaced(
                s@.subrange(i as int, s@.len() as int),
                pat@,
                rep@,
            ),
        decreases s@.len() - i,
    {
        let ghost old_i = i as int;
        let ghost t = s@.subrange(old_i, s@.len() as int);
        if match_at(s, pat, i) {
            proof {
                assert(t.subrange(0, pat@.len() as int) =~= s@.subrange(
                    old_i,
                    old_i + pat@.len() as int,
                ));
                assert(seq_starts_with(t, pat@));
                assert(t.skip(pat@.len() as int) =~= s@.subrange(
                    old_i + pat@.len() as int,
                    s@.len() as int,
                ));
            }
            r.extend_from_slice(rep);
            i = i + pat.len();
        } else {
            proof {
                if t.len() >= pat@.len() && seq_starts_with(t, pat@) {
                    assert(t.subrange(0, pat@.len() as int) =~= s@.subrange(
                        old_i,
                        old_i + pat@.len() as int,
                    ));
                    assert(matches_at(s@, pat@, old_i));
                }
                assert(t.skip(1) =~= s@.subrange(old_i + 1, s@.len() as int));
                assert(seq![t[0]] =~= s@.subrange(old_i, old_i + 1));
            }
            r.push(s[i]);
            i = i + 1;
            proof {
                assert(r@ == (r@.subrange(0, r@.len() - 1)).push(t[0]));
                assert(r@.subrange(0, r@.len() - 1) + seq![t[0]] =~= r@);
            }
        }
    }
    proof {
        assert(s@.subrange(s@.len() as int, s@.len() as int) =~= Seq::<u8>::empty());
        assert(r@ + Seq::<u8>::empty() =~= r@);
    }
    r
}

/// Concatenate `parts` with `sep` between neighbours.
pub fn join_bytes(parts: &Vec<Vec<u8>>, sep: &[u8]) -> (r: Vec<u8>)
    ensures
        r@ == joined(parts.deep_view(), sep@),
{
    let ghost dv = parts.deep_view();
    let mut r: Vec<u8> = Vec::new();
    let mut i: usize = 0;
    proof {
        assert(dv.len() == parts@.len());
    }
    while i < parts.len()
        invariant
            i <= parts@.len(),
            dv == parts.deep_view(),
            dv.len() == parts@.len(),
            forall|j: int| 0 <= j < parts@.len() ==> dv[j] == parts@[j]@,
            r@ == joined(dv.subrange(0, i as int), sep@),
        decreases parts@.len() - i,
    {
        if i > 0 {
            r.extend_from_slice(sep);
        }
        let part = &parts[i];
        r.extend_from_slice(part.as_slice());
        i = i + 1;
        proof {
            let pre = dv.subrange(0, i - 1);
            let cur = dv.subrange(0, i as int);
            assert(cur.drop_last() =~= pre);
            assert(cur.last() == dv[i - 1]);
            if i == 1 {
                assert(joined(cur, sep@) == cur[0]);
                assert(r@ =~= dv[0]);
            } else {
                assert(joined(cur, sep@) == joined(pre, sep@) + sep@ + dv[i - 1]);
                assert(r@ =~= joined(pre, sep@) + sep@ + dv[i - 1]);
            }
        }
    }
    proof {
        assert(dv.subrange(0, dv.len() as int) =~= dv);
    }
    r
}

} // verus!
