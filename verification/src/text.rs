use vstd::prelude::*;

use crate::model::{key_matches, rest_after, seg_end, strip_lead};

verus! {

/// `seg_end` is the index of the first separator: everything before it is
/// not a separator, and the character there (if any) is one.
pub proof fn lemma_seg_end_props(p: Seq<char>)
    ensures
        0 <= seg_end(p) <= p.len(),
        forall|j: int| 0 <= j < seg_end(p) ==> p[j] != '/',
        seg_end(p) < p.len() ==> p[seg_end(p)] == '/',
    decreases p.len(),
{
    if p.len() > 0 && p[0] != '/' {
        let q = p.subrange(1, p.len() as int);
        lemma_seg_end_props(q);
        assert forall|j: int| 0 <= j < seg_end(p) implies p[j] != '/' by {
            if j > 0 {
                assert(p[j] == q[j - 1]);
            }
        }
    }
}

/// Whether two string slices hold the same characters.
pub fn str_eq(a: &str, b: &str) -> (r: bool)
    ensures
        r == (a@ == b@),
{
    let alen = a.unicode_len();
    let blen = b.unicode_len();
    if alen != blen {
        return false;
    }
    let mut i: usize = 0;
    while i < alen
        invariant
            0 <= i <= alen,
            alen == a@.len(),
            alen == b@.len(),
            forall|j: int| 0 <= j < i ==> a@[j] == b@[j],
        decreases alen - i,
    {
        if a.get_char(i) != b.get_char(i) {
            return false;
        }
        i += 1;
    }
    proof {
        assert(a@ =~= b@);
    }
    true
}

/// Whether table key `k` matches the stripped remaining path `p`.
pub fn matches_key(p: &str, k: &str) -> (r: bool)
    ensures
        r == key_matches(p@, k@),
{
    let plen = p.unicode_len();
    let klen = k.unicode_len();
    if klen > plen {
        return false;
    }
    let mut i: usize = 0;
    while i < klen
        invariant
            0 <= i <= klen,
            klen == k@.len(),
            plen == p@.len(),
            klen <= plen,
            forall|j: int| 0 <= j < i ==> p@[j] == k@[j],
        decreases klen - i,
    {
        if p.get_char(i) != k.get_char(i) {
            proof {
                assert(p@.subrange(0, klen as int)[i as int] == p@[i as int]);
            }
            return false;
        }
        i += 1;
    }
    proof {
        assert(p@.subrange(0, klen as int) =~= k@);
    }
    if plen == klen {
        true
    } else {
        p.get_char(klen) == '/'
    }
}

/// The length of the first segment of `p`: index of the first separator, or
/// the whole length if there is none.
pub fn first_seg_len(p: &str) -> (r: usize)
    ensures
        r == seg_end(p@),
{
    proof {
        lemma_seg_end_props(p@);
    }
    let n = p.unicode_len();
    let mut i: usize = 0;
    while i < n && p.get_char(i) != '/'
        invariant
            0 <= i <= n,
            n == p@.len(),
            forall|j: int| 0 <= j < i ==> p@[j] != '/',
        decreases n - i,
    {
        i += 1;
    }
    proof {
        if i < seg_end(p@) {
            assert(p@[i as int] != '/');
        }
        if seg_end(p@) < i {
            assert(p@[seg_end(p@)] == '/');
        }
    }
    i
}

/// An owned copy of `s` with one leading separator stripped.
pub fn strip_lead_owned(s: &str) -> (r: String)
    ensures
        r@ == strip_lead(s@),
{
    let n = s.unicode_len();
    if n > 0 && s.get_char(0) == '/' {
        s.substring_char(1, n).to_owned()
    } else {
        s.to_owned()
    }
}

/// An owned copy of the character range `[from, to)` of `s`.
pub fn substr_owned(s: &str, from: usize, to: usize) -> (r: String)
    requires
        0 <= from <= to <= s@.len(),
    ensures
        r@ == s@.subrange(from as int, to as int),
{
    s.substring_char(from, to).to_owned()
}

/// The remaining path after key `k` matched the stripped path `p`.
pub fn rest_after_key(p: &str, k: &str) -> (r: String)
    requires
        key_matches(p@, k@),
    ensures
        r@ == rest_after(p@, k@),
{
    let plen = p.unicode_len();
    let klen = k.unicode_len();
    if plen == klen {
        String::new()
    } else {
        substr_owned(p, klen, plen)
    }
}

/// An owned copy of a byte vector.
pub fn clone_bytes(v: &Vec<u8>) -> (r: Vec<u8>)
    ensures
        r@ == v@,
{
    let mut out: Vec<u8> = Vec::new();
    let mut i: usize = 0;
    while i < v.len()
        invariant
            0 <= i <= v@.len(),
            out@ == v@.subrange(0, i as int),
        decreases v@.len() - i,
    {
        out.push(v[i]);
        proof {
            assert(out@ =~= v@.subrange(0, i + 1 as int));
        }
        i += 1;
    }
    proof {
        assert(v@.subrange(0, v@.len() as int) =~= v@);
    }
    out
}

} // verus!
