//! Little-endian integers and signatures in byte buffers.

use vstd::prelude::*;

verus! {

/// The little-endian value of a run of bytes.
pub open spec fn le_value(s: Seq<u8>) -> nat
    decreases s.len(),
{
    if s.len() == 0 { 0 } else { s[0] as nat + 256 * le_value(s.drop_first()) }
}

pub open spec fn pow256(n: nat) -> nat
    decreases n,
{
    if n == 0 { 1 } else { 256 * pow256((n - 1) as nat) }
}

pub proof fn lemma_le_value_bound(s: Seq<u8>)
    ensures
        le_value(s) < pow256(s.len()),
    decreases s.len(),
{
    if s.len() > 0 {
        lemma_le_value_bound(s.drop_first());
        let p = pow256((s.len() - 1) as nat);
        assert(s[0] as nat + 256 * le_value(s.drop_first()) < 256 * p) by (nonlinear_arith)
            requires s[0] < 256, le_value(s.drop_first()) < p;
    }
}

pub proof fn lemma_pow256_le7(n: nat)
    requires
        n <= 7,
    ensures
        pow256(n) <= 72057594037927936,
{
    reveal_with_fuel(pow256, 8);
}

/// Reads the `n`-byte little-endian integer at `pos`.
pub fn read_le(data: &[u8], pos: usize, n: usize) -> (v: u64)
    requires
        n <= 8,
        pos + n <= data@.len(),
    ensures
        v as nat == le_value(data@.subrange(pos as int, pos + n)),
{
    let mut v: u64 = 0;
    let mut i: usize = n;
    while i > 0
        invariant
            i <= n <= 8,
            pos + n <= data@.len(),
            data@.len() == data.len(),
            v as nat == le_value(data@.subrange(pos + i, pos + n)),
        decreases i,
    {
        let ghost rest = data@.subrange(pos + i, pos + n);
        let ghost next = data@.subrange(pos + i - 1, pos + n);
        assert(next.drop_first() =~= rest);
        assert(next[0] == data@[pos + i - 1]);
        proof {
            lemma_le_value_bound(rest);
            lemma_pow256_le7(rest.len());
        }
        let b = data[pos + (i - 1)] as u64;
        assert(v * 256 + b < 0x1_0000_0000_0000_0000) by (nonlinear_arith)
            requires v < 72057594037927936, b < 256;
        v = b + 256 * v;
        i = i - 1;
    }
    v
}

/// `sig` stands at `i` in `d`.
pub open spec fn sig_at(d: Seq<u8>, i: int, sig: Seq<u8>) -> bool {
    0 <= i && i + sig.len() <= d.len() && d.subrange(i, i + sig.len()) == sig
}

/// The last position of a 4-byte signature in `data`.
pub fn rfind_sig(data: &[u8], sig: [u8; 4]) -> (r: Option<usize>)
    ensures
        r matches Some(p) ==> sig_at(data@, p as int, sig@)
            && forall|q: int| p < q ==> !sig_at(data@, q, sig@),
        r is None ==> forall|q: int| !sig_at(data@, q, sig@),
{
    if data.len() < 4 {
        return None;
    }
    let mut i: usize = data.len() - 4 + 1;
    while i > 0
        invariant
            i <= data@.len() - 3,
            data@.len() >= 4,
            forall|q: int| i <= q ==> !sig_at(data@, q, sig@),
        decreases i,
    {
        let k = i - 1;
        if data[k] == sig[0] && data[k + 1] == sig[1] && data[k + 2] == sig[2] && data[k + 3] == sig[3] {
            assert(data@.subrange(k as int, k + 4) =~= sig@);
            return Some(k);
        }
        assert(!sig_at(data@, k as int, sig@)) by {
            if sig_at(data@, k as int, sig@) {
                assert(data@.subrange(k as int, k + 4)[0] == data@[k as int]);
                assert(data@.subrange(k as int, k + 4)[1] == data@[k + 1]);
                assert(data@.subrange(k as int, k + 4)[2] == data@[k + 2]);
                assert(data@.subrange(k as int, k + 4)[3] == data@[k + 3]);
            }
        }
        i = k;
    }
    None
}


/// The last position below `i` where `sig` stands.
pub open spec fn last_sig_below(d: Seq<u8>, sig: Seq<u8>, i: int) -> Option<int>
    decreases i,
{
    if i <= 0 {
        None
    } else if sig_at(d, i - 1, sig) {
        Some(i - 1)
    } else {
        last_sig_below(d, sig, i - 1)
    }
}

/// The last position of `sig` in `d`.
pub open spec fn last_sig(d: Seq<u8>, sig: Seq<u8>) -> Option<int> {
    last_sig_below(d, sig, d.len() as int)
}

pub proof fn lemma_last_sig(d: Seq<u8>, sig: Seq<u8>, r: Option<int>, i: int)
    requires
        i >= 0,
        r matches Some(p) ==> p < i && sig_at(d, p, sig) && forall|q: int| p < q ==> !sig_at(d, q, sig),
        r is None ==> forall|q: int| !sig_at(d, q, sig),
    ensures
        last_sig_below(d, sig, i) == (match r { Some(p) => Some(p), None => None::<int> }),
    decreases i,
{
    if i > 0 {
        if !sig_at(d, i - 1, sig) {
            lemma_last_sig(d, sig, r, i - 1);
        }
    }
}

/// The last position of a 4-byte signature, as a position.
pub fn last_sig_pos(data: &[u8], sig: [u8; 4]) -> (r: Option<usize>)
    ensures
        match last_sig(data@, sig@) {
            Some(p) => r == Some(p as usize) && 0 <= p && p + 4 <= data@.len(),
            None => r is None,
        },
{
    let r = rfind_sig(data, sig);
    proof {
        let g: Option<int> = match r { Some(p) => Some(p as int), None => None };
        if let Some(p) = r {
            assert(sig_at(data@, p as int, sig@));
            assert(p < data@.len() + 1);
        }
        lemma_last_sig(data@, sig@, g, data@.len() as int);
    }
    r
}

} // verus!
