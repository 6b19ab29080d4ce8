//! Small verified utilities over byte sequences: equality, first-occurrence
//! substring search, subrange copies, and decimal formatting of integers.

use vstd::prelude::*;

verus! {

/// The pattern `p` occurs in `h` starting at position `i`.
pub open spec fn match_at(h: Seq<u8>, p: Seq<u8>, i: int) -> bool {
    &&& 0 <= i
    &&& i + p.len() <= h.len()
    &&& h.subrange(i, i + p.len() as int) == p
}

/// Position of the first occurrence of `p` in `h` at or after `from`,
/// or `None` when there is none.
pub open spec fn find_spec(h: Seq<u8>, p: Seq<u8>, from: int) -> Option<int>
    decreases h.len() - from,
{
    if from < 0 {
        find_spec(h, p, 0)
    } else if from + p.len() > h.len() {
        None
    } else if p.len() == 0 {
        Some(from)
    } else if h.subrange(from, from + p.len() as int) == p {
        Some(from)
    } else {
        find_spec(h, p, from + 1)
    }
}

/// `find_spec` returns exactly the first occurrence: a returned position is a
/// match and nothing earlier (at or after `from`) matches; `None` means no
/// position at or after `from` matches.
pub proof fn lemma_find_spec_first(h: Seq<u8>, p: Seq<u8>, from: int)
    requires
        0 <= from,
    ensures
        match find_spec(h, p, from) {
            Some(j) => {
                &&& from <= j
                &&& match_at(h, p, j)
                &&& forall|i: int| from <= i < j ==> !match_at(h, p, i)
            },
            None => forall|i: int| from <= i ==> !match_at(h, p, i),
        },
    decreases h.len() - from,
{
    if from + p.len() > h.len() {
    } else if p.len() == 0 {
        assert(h.subrange(from, from) =~= p);
        assert(match_at(h, p, from));
    } else if h.subrange(from, from + p.len() as int) == p {
    } else {
        lemma_find_spec_first(h, p, from + 1);
        assert(!match_at(h, p, from));
    }
}

/// Position of the last occurrence of the byte `b` strictly before `before`,
/// or `None` when there is none.
pub open spec fn rfind_byte_spec(h: Seq<u8>, b: u8, before: int) -> Option<int>
    decreases before,
{
    if before <= 0 || before > h.len() {
        None
    } else if h[before - 1] == b {
        Some(before - 1)
    } else {
        rfind_byte_spec(h, b, before - 1)
    }
}

/// Last occurrence of the byte `b` strictly before `before`, as
/// `rfind_byte_spec` says.
pub fn rfind_byte(h: &[u8], b: u8, before: usize) -> (r: Option<usize>)
    requires
        before <= h@.len(),
    ensures
        match r {
            Some(t) => rfind_byte_spec(h@, b, before as int) == Some(t as int),
            None => rfind_byte_spec(h@, b, before as int) is None,
        },
{
    let mut i: usize = before;
    while i > 0
        invariant
            i <= before <= h@.len(),
            rfind_byte_spec(h@, b, before as int) == rfind_byte_spec(h@, b, i as int),
        decreases i,
    {
        if h[i - 1] == b {
            return Some(i - 1);
        }
        i = i - 1;
    }
    None
}

/// A returned backward-search position lies before `before`, inside the
/// sequence, and holds the byte.
pub proof fn lemma_rfind_byte_bounds(h: Seq<u8>, b: u8, before: int)
    ensures
        rfind_byte_spec(h, b, before) matches Some(t) ==> 0 <= t < before && t < h.len() && h[t]
            == b,
    decreases before,
{
    if before <= 0 || before > h.len() {
    } else if h[before - 1] == b {
    } else {
        lemma_rfind_byte_bounds(h, b, before - 1);
    }
}

/// A match of a pattern gives a match of any part of that pattern, shifted by
/// the part's offset.
pub proof fn lemma_match_at_contained(h: Seq<u8>, p: Seq<u8>, q: Seq<u8>, j: int, o: int)
    requires
        match_at(h, p, j),
        0 <= o,
        o + q.len() <= p.len(),
        q == p.subrange(o, o + q.len() as int),
    ensures
        match_at(h, q, j + o),
{
    assert forall|t: int| 0 <= t < q.len() implies h.subrange(
        j + o,
        j + o + q.len() as int,
    )[t] == q[t] by {
        assert(h.subrange(j, j + p.len() as int)[o + t] == p[o + t]);
    }
    assert(h.subrange(j + o, j + o + q.len() as int) =~= q);
}

/// Byte-wise equality of two slices, pinned to sequence equality of the views.
pub fn bytes_eq(a: &[u8], b: &[u8]) -> (r: bool)
    ensures
        r == (a@ == b@),
{
    if a.len() != b.len() {
        assert(a@.len() != b@.len());
        return false;
    }
    let mut i: usize = 0;
    while i < a.len()
        invariant
            i <= a.len(),
            a.len() == b.len(),
            forall|j: int| 0 <= j < i ==> a@[j] == b@[j],
        decreases a.len() - i,
    {
        if a[i] != b[i] {
            return false;
        }
        i = i + 1;
    }
    assert(a@ =~= b@);
    true
}

/// First occurrence of `p` in `h` at or after `from`, as `find_spec` says.
pub fn find(h: &[u8], p: &[u8], from: usize) -> (r: Option<usize>)
    ensures
        match r {
            Some(j) => find_spec(h@, p@, from as int) == Some(j as int),
            None => find_spec(h@, p@, from as int) is None,
        },
{
    if p.len() > h.len() {
        return None;
    }
    let mut i: usize = from;
    if i > h.len() - p.len() {
        return None;
    }
    loop
        invariant
            from <= i,
            p.len() <= h.len(),
            i + p.len() <= h.len(),
            find_spec(h@, p@, from as int) == find_spec(h@, p@, i as int),
        decreases h.len() - i,
    {
        let window = vstd::slice::slice_subrange(h, i, i + p.len());
        if bytes_eq(window, p) {
            return Some(i);
        }
        assert(h@.subrange(i as int, i + p@.len()) != p@);
        assert(p@.len() != 0) by {
            if p@.len() == 0 {
                assert(h@.subrange(i as int, i + p@.len()) =~= p@);
            }
        }
        if i >= h.len() - p.len() {
            assert(find_spec(h@, p@, i + 1) is None);
            assert(find_spec(h@, p@, i as int) is None);
            return None;
        }
        assert(find_spec(h@, p@, i as int) == find_spec(h@, p@, i + 1));
        i = i + 1;
    }
}

/// A copy of `h[lo .. hi]` as a fresh vector.
pub fn subrange_vec(h: &[u8], lo: usize, hi: usize) -> (r: Vec<u8>)
    requires
        lo <= hi <= h@.len(),
    ensures
        r@ == h@.subrange(lo as int, hi as int),
{
    let s = vstd::slice::slice_subrange(h, lo, hi);
    vstd::slice::slice_to_vec(s)
}

/// Appends every byte of `src` to `dst`, in order.
pub fn append_bytes(dst: &mut Vec<u8>, src: &[u8])
    ensures
        final(dst)@ == old(dst)@ + src@,
{
    let mut i: usize = 0;
    while i < src.len()
        invariant
            i <= src.len(),
            dst@ == old(dst)@ + src@.subrange(0, i as int),
        decreases src.len() - i,
    {
        dst.push(src[i]);
        assert(dst@ =~= old(dst)@ + src@.subrange(0, i + 1 as int));
        i = i + 1;
    }
    assert(dst@ =~= old(dst)@ + src@);
}

/// The decimal digits of `n`, most significant first, as ASCII bytes.
pub open spec fn dec_of(n: nat) -> Seq<u8>
    decreases n,
{
    if n < 10 {
        seq![(48 + n) as u8]
    } else {
        dec_of(n / 10).push((48 + n % 10) as u8)
    }
}

/// Formats `n` in decimal, matching `dec_of`.
pub fn u64_to_dec(n: u64) -> (r: Vec<u8>)
    ensures
        r@ == dec_of(n as nat),
    decreases n,
{
    if n < 10 {
        let mut v: Vec<u8> = Vec::new();
        v.push((48 + n) as u8);
        assert(v@ =~= dec_of(n as nat));
        v
    } else {
        assert(n / 10 < n && (n as nat) / 10 == (n / 10) as nat) by (nonlinear_arith)
            requires
                n >= 10,
        ;
        let mut v = u64_to_dec(n / 10);
        v.push((48 + n % 10) as u8);
        assert((n as nat) % 10 == (n % 10) as nat);
        assert(v@ =~= dec_of(n as nat));
        v
    }
}

} // verus!
