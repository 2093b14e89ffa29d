//! Canonical addresses of locking scripts. A standard single-destination
//! script is identified by its own bytes, spelled as lower-case hex; a bare
//! multisig script pays each of its public keys, each spelled the same way; a
//! data-carrying script pays no destination; anything else is malformed.
//!
//! The locking script is what an output pays, so two outputs reach the same
//! destination exactly when their scripts (or keys) are byte-equal. A textual
//! address (base58 or bech32) is one network's encoding of that same script;
//! spelling the script itself keeps the comparison free of network prefixes
//! and encoding variants, and whitelist entries are written in this form.

use crate::bytes::take_bytes;
use crate::hexcode::{encode_hex, hex_lower};
use crate::tx::{lemma_many_none, spec_many};
use vstd::prelude::*;

verus! {

pub open spec fn is_pay_to_pubkey_hash(s: Seq<u8>) -> bool {
    s.len() == 25 && s[0] == 0x76 && s[1] == 0xa9 && s[2] == 0x14 && s[23] == 0x88 && s[24] == 0xac
}

pub open spec fn is_pay_to_script_hash(s: Seq<u8>) -> bool {
    s.len() == 23 && s[0] == 0xa9 && s[1] == 0x14 && s[22] == 0x87
}

pub open spec fn is_witness_key_hash(s: Seq<u8>) -> bool {
    s.len() == 22 && s[0] == 0x00 && s[1] == 0x14
}

pub open spec fn is_witness_script_hash(s: Seq<u8>) -> bool {
    s.len() == 34 && s[0] == 0x00 && s[1] == 0x20
}

pub open spec fn is_taproot(s: Seq<u8>) -> bool {
    s.len() == 34 && s[0] == 0x51 && s[1] == 0x20
}

pub open spec fn is_single_destination(s: Seq<u8>) -> bool {
    is_pay_to_pubkey_hash(s) || is_pay_to_script_hash(s) || is_witness_key_hash(s)
        || is_witness_script_hash(s) || is_taproot(s)
}

pub open spec fn is_data_carrier(s: Seq<u8>) -> bool {
    s.len() >= 1 && s[0] == 0x6a
}

/// A public key pushed at `p`: 33 bytes of compressed form or 65 bytes of
/// uncompressed form, with the position after it.
pub open spec fn spec_key(s: Seq<u8>, p: int) -> Option<(Seq<u8>, int)> {
    if 0 <= p && p + 34 <= s.len() && s[p] == 0x21 && (s[p + 1] == 0x02 || s[p + 1] == 0x03) {
        Some((s.subrange(p + 1, p + 34), p + 34))
    } else if 0 <= p && p + 66 <= s.len() && s[p] == 0x41 && s[p + 1] == 0x04 {
        Some((s.subrange(p + 1, p + 66), p + 66))
    } else {
        None
    }
}

pub open spec fn key_item() -> spec_fn(Seq<u8>, int) -> Option<(Seq<u8>, int)> {
    |s: Seq<u8>, p: int| spec_key(s, p)
}

/// The keys of a bare `m`-of-`n` multisig script: `OP_m`, `n` keys, `OP_n`,
/// `OP_CHECKMULTISIG`, with `1 <= m <= n <= 16`.
pub open spec fn spec_multisig(s: Seq<u8>) -> Option<Seq<Seq<u8>>> {
    if s.len() >= 3 && s[s.len() - 1] == 0xae && 0x51 <= s[0] && s[0] <= s[s.len() - 2]
        && s[s.len() - 2] <= 0x60 {
        match spec_many(s, 1, (s[s.len() - 2] - 0x50) as nat, key_item()) {
            Some((keys, q)) => if q == s.len() - 2 {
                Some(keys)
            } else {
                None
            },
            None => None,
        }
    } else {
        None
    }
}

/// The destinations a locking script pays, or nothing if it is malformed.
pub open spec fn spec_destinations(s: Seq<u8>) -> Option<Seq<Seq<char>>> {
    if is_single_destination(s) {
        Some(seq![hex_lower(s)])
    } else if is_data_carrier(s) {
        Some(Seq::empty())
    } else {
        match spec_multisig(s) {
            Some(keys) => Some(keys.map_values(|k: Seq<u8>| hex_lower(k))),
            None => None,
        }
    }
}

/// The canonical addresses of the keys of a bare multisig script.
fn multisig_destinations(s: &Vec<u8>) -> (r: Option<Vec<String>>)
    ensures
        match r {
            Some(d) => spec_multisig(s@) is Some && d@.map_values(|a: String| a@)
                == spec_multisig(s@).unwrap().map_values(|k: Seq<u8>| hex_lower(k)),
            None => spec_multisig(s@) is None,
        },
{
    let len = s.len();
    if len < 3 || s[len - 1] != 0xae || s[0] < 0x51 || s[0] > s[len - 2] || s[len - 2] > 0x60 {
        return None;
    }
    let n = (s[len - 2] - 0x50) as usize;
    let mut d: Vec<String> = Vec::new();
    let mut q: usize = 1;
    let mut k: usize = 0;
    let ghost mut keys: Seq<Seq<u8>> = Seq::empty();
    while k < n
        invariant
            k <= n,
            len == s@.len(),
            len >= 3,
            s@[len - 1] == 0xae,
            0x51 <= s@[0] <= s@[len - 2] <= 0x60,
            n == s@[len - 2] - 0x50,
            q <= len,
            spec_many(s@, 1, k as nat, key_item()) == Some((keys, q as int)),
            d@.map_values(|a: String| a@) == keys.map_values(|x: Seq<u8>| hex_lower(x)),
        decreases n - k,
    {
        let w: usize = if len - q >= 34 && s[q] == 0x21 && (s[q + 1] == 0x02 || s[q + 1] == 0x03) {
            33
        } else if len - q >= 66 && s[q] == 0x41 && s[q + 1] == 0x04 {
            65
        } else {
            proof {
                lemma_many_none(s@, 1, (k + 1) as nat, n as nat, key_item());
            }
            return None;
        };
        let key = take_bytes(s, q + 1, w);
        let ghost before = d@.map_values(|a: String| a@);
        let ghost old_keys = keys;
        proof {
            keys = keys.push(key@);
        }
        let a = encode_hex(&key);
        d.push(a);
        assert(keys.map_values(|x: Seq<u8>| hex_lower(x)) =~= old_keys.map_values(
            |x: Seq<u8>| hex_lower(x),
        ).push(hex_lower(key@)));
        assert(d@.map_values(|a: String| a@) =~= before.push(a@));
        assert(d@.map_values(|a: String| a@) =~= keys.map_values(|x: Seq<u8>| hex_lower(x)));
        q = q + 1 + w;
        k = k + 1;
    }
    if q != len - 2 {
        return None;
    }
    Some(d)
}

/// The canonical addresses that a locking script pays, or `None` for a script
/// of no known destination form.
pub fn canonicalize(script: &Vec<u8>) -> (r: Option<Vec<String>>)
    ensures
        match r {
            Some(d) => spec_destinations(script@) == Some(d@.map_values(|a: String| a@)),
            None => spec_destinations(script@) is None,
        },
{
    let s = script;
    let n = s.len();
    let single = (n == 25 && s[0] == 0x76 && s[1] == 0xa9 && s[2] == 0x14 && s[23] == 0x88 && s[24]
        == 0xac) || (n == 23 && s[0] == 0xa9 && s[1] == 0x14 && s[22] == 0x87) || (n == 22 && s[0]
        == 0x00 && s[1] == 0x14) || (n == 34 && (s[0] == 0x00 || s[0] == 0x51) && s[1] == 0x20);
    if single {
        let mut d: Vec<String> = Vec::new();
        d.push(encode_hex(script));
        assert(d@.map_values(|a: String| a@) =~= seq![hex_lower(script@)]);
        Some(d)
    } else if n >= 1 && s[0] == 0x6a {
        let d: Vec<String> = Vec::new();
        assert(d@.map_values(|a: String| a@) =~= Seq::<Seq<char>>::empty());
        Some(d)
    } else {
        multisig_destinations(script)
    }
}

} // verus!
