//! Fixed-width little-endian integers and compact-size counts, the two number
//! encodings of the serialized transaction format.

use vstd::prelude::*;

verus! {

/// Little-endian value of a byte sequence: the first byte is least significant.
pub open spec fn le_value(s: Seq<u8>) -> nat
    decreases s.len(),
{
    if s.len() == 0 {
        0
    } else {
        s[0] as nat + 256 * le_value(s.drop_first())
    }
}

pub open spec fn pow256(n: nat) -> nat
    decreases n,
{
    if n == 0 {
        1
    } else {
        256 * pow256((n - 1) as nat)
    }
}

proof fn lemma_pow256_mono(a: nat, b: nat)
    requires
        a <= b,
    ensures
        pow256(a) <= pow256(b),
    decreases b,
{
    if a < b {
        lemma_pow256_mono(a, (b - 1) as nat);
    }
}

proof fn lemma_le_value_bound(s: Seq<u8>)
    ensures
        le_value(s) < pow256(s.len()),
    decreases s.len(),
{
    if s.len() > 0 {
        lemma_le_value_bound(s.drop_first());
        let x = s[0] as nat;
        let l = le_value(s.drop_first());
        let p = pow256(s.drop_first().len());
        assert(x + 256 * l < 256 * p) by (nonlinear_arith)
            requires
                x <= 255,
                l < p,
        ;
    }
}

/// Bytes `s[p..p + n]`, or nothing where they run past the end.
pub open spec fn spec_take(s: Seq<u8>, p: int, n: int) -> Option<(Seq<u8>, int)> {
    if 0 <= p && 0 <= n && p + n <= s.len() {
        Some((s.subrange(p, p + n), p + n))
    } else {
        None
    }
}

/// The little-endian integer of `n` bytes at `p`, and the position after it.
pub open spec fn spec_le(s: Seq<u8>, p: int, n: int) -> Option<(nat, int)> {
    match spec_take(s, p, n) {
        Some((t, q)) => Some((le_value(t), q)),
        None => None,
    }
}

/// A compact-size count at `p`: one byte below 0xfd, else a marker byte and a
/// 2, 4 or 8-byte little-endian value, which must not fit a shorter form.
pub open spec fn spec_compact(s: Seq<u8>, p: int) -> Option<(nat, int)> {
    if p < 0 || p >= s.len() {
        None
    } else if s[p] < 0xfd {
        Some((s[p] as nat, p + 1))
    } else {
        let w: int = if s[p] == 0xfd {
            2
        } else if s[p] == 0xfe {
            4
        } else {
            8
        };
        let least: nat = if s[p] == 0xfd {
            0xfd
        } else if s[p] == 0xfe {
            0x1_0000
        } else {
            0x1_0000_0000
        };
        match spec_le(s, p + 1, w) {
            Some((v, q)) => if v < least {
                None
            } else {
                Some((v, q))
            },
            None => None,
        }
    }
}

/// Copies `s[p..p + n]`.
pub fn take_bytes(s: &Vec<u8>, p: usize, n: usize) -> (r: Vec<u8>)
    requires
        p + n <= s@.len(),
    ensures
        r@ == s@.subrange(p as int, p + n),
{
    let len = s.len();
    let mut r: Vec<u8> = Vec::new();
    let mut i: usize = 0;
    while i < n
        invariant
            i <= n,
            p + n <= s@.len(),
            r@ == s@.subrange(p as int, p + i),
            len == s@.len(),
        decreases n - i,
    {
        r.push(s[p + i]);
        i = i + 1;
        assert(r@ =~= s@.subrange(p as int, p + i));
    }
    r
}

/// Reads the little-endian integer of `n <= 8` bytes at `p`.
pub fn read_le(s: &Vec<u8>, p: usize, n: usize) -> (r: u64)
    requires
        p + n <= s@.len(),
        n <= 8,
    ensures
        r as nat == le_value(s@.subrange(p as int, p + n)),
        (r as nat) < pow256(n as nat),
{
    let len = s.len();
    let mut v: u64 = 0;
    let mut i: usize = n;
    proof {
        reveal_with_fuel(pow256, 9);
        assert(pow256(8) == 0x1_0000_0000_0000_0000);
        assert(s@.subrange(p + n, p + n) =~= Seq::<u8>::empty());
    }
    while i > 0
        invariant
            i <= n,
            n <= 8,
            p + n <= s@.len(),
            len == s@.len(),
            pow256(8) == 0x1_0000_0000_0000_0000,
            v as nat == le_value(s@.subrange(p + i, p + n)),
            (v as nat) < pow256((n - i) as nat),
        decreases i,
    {
        i = i - 1;
        let ghost old_v = v as nat;
        proof {
            let t = s@.subrange(p + i, p + n);
            assert(t.drop_first() =~= s@.subrange(p + i + 1, p + n));
            lemma_pow256_mono((n - i) as nat, 8);
            assert(pow256((n - i) as nat) == 256 * pow256((n - i - 1) as nat));
            let b = s@[p + i] as nat;
            let pp = pow256((n - i - 1) as nat);
            assert(b + 256 * old_v < 256 * pp) by (nonlinear_arith)
                requires
                    b <= 255,
                    old_v < pp,
            ;
        }
        v = v * 256 + s[p + i] as u64;
    }
    v
}

/// Reads the four-byte little-endian integer at `p`.
pub fn read_u32(s: &Vec<u8>, p: usize) -> (r: u32)
    requires
        p + 4 <= s@.len(),
    ensures
        r as nat == le_value(s@.subrange(p as int, p + 4)),
{
    let v = read_le(s, p, 4);
    proof {
        reveal_with_fuel(pow256, 5);
    }
    v as u32
}

/// Reads a compact-size count at `p`, with the position after it.
pub fn read_compact(s: &Vec<u8>, p: usize) -> (r: Option<(u64, usize)>)
    ensures
        match r {
            Some((v, q)) => spec_compact(s@, p as int) == Some((v as nat, q as int)),
            None => spec_compact(s@, p as int) is None,
        },
        r matches Some((_, q)) ==> p < q,
{
    if p >= s.len() {
        return None;
    }
    let f = s[p];
    if f < 0xfd {
        return Some((f as u64, p + 1));
    }
    let w: usize = if f == 0xfd {
        2
    } else if f == 0xfe {
        4
    } else {
        8
    };
    let least: u64 = if f == 0xfd {
        0xfd
    } else if f == 0xfe {
        0x1_0000
    } else {
        0x1_0000_0000
    };
    if w > s.len() - p - 1 {
        return None;
    }
    let v = read_le(s, p + 1, w);
    if v < least {
        None
    } else {
        Some((v, p + 1 + w))
    }
}

} // verus!
