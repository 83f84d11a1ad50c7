//! Decoding of call parameters from the host's serialization convention:
//! little-endian fixed-width integers, and strings written as a `u32` byte
//! count followed by that many bytes of UTF-8.
//!
//! A parameter is read from the front of the byte buffer; bytes past the end
//! of the decoded value are ignored, as the host's own reader ignores them.

use crate::receipt::{Receipt, ReceiptView};
use vstd::prelude::*;
use vstd::slice::{slice_subrange, slice_to_vec};
use vstd::utf8::{decode_utf8, valid_utf8};

verus! {

/// The value of a byte sequence read as a little-endian natural number:
/// the first byte is the least significant.
pub open spec fn le_val(s: Seq<u8>) -> nat
    decreases s.len(),
{
    if s.len() == 0 {
        0
    } else {
        s[0] as nat + 256 * le_val(s.drop_first())
    }
}

/// `256 ^ n`, the number of values a sequence of `n` bytes can take.
pub open spec fn pow256(n: nat) -> nat
    decreases n,
{
    if n == 0 {
        1
    } else {
        256 * pow256((n - 1) as nat)
    }
}

proof fn lemma_pow256_increases(a: nat, b: nat)
    requires
        a <= b,
    ensures
        pow256(a) <= pow256(b),
    decreases b,
{
    if a < b {
        lemma_pow256_increases(a, (b - 1) as nat);
        assert(pow256(b) == 256 * pow256((b - 1) as nat));
        assert(pow256((b - 1) as nat) >= 1) by {
            lemma_pow256_increases(0, (b - 1) as nat);
        }
    }
}

proof fn lemma_pow256_16()
    ensures
        pow256(16) == 0x1_0000_0000_0000_0000_0000_0000_0000_0000,
{
    reveal_with_fuel(pow256, 17);
}

/// Reads the `n` bytes of `s` starting at `off` as a little-endian natural
/// number. `n` is at most 16, so the value fits in a `u128`.
pub fn read_le(s: &[u8], off: usize, n: usize) -> (r: u128)
    requires
        off + n <= s@.len(),
        n <= 16,
    ensures
        r as nat == le_val(s@.subrange(off as int, off + n)),
        (r as nat) < pow256(n as nat),
{
    let slen = s.len();
    let mut acc: u128 = 0;
    let mut i: usize = n;
    proof {
        assert(s@.subrange(off + n, off + n) =~= Seq::<u8>::empty());
    }
    while i > 0
        invariant
            i <= n,
            n <= 16,
            off + n <= slen,
            slen == s@.len(),
            acc as nat == le_val(s@.subrange(off + i, off + n)),
            (acc as nat) < pow256((n - i) as nat),
        decreases i,
    {
        i = i - 1;
        let b = s[off + i];
        proof {
            let tail = s@.subrange(off + i + 1, off + n);
            let cur = s@.subrange(off + i, off + n);
            assert(cur.drop_first() =~= tail);
            assert(cur[0] == s@[off + i]);
            assert(le_val(cur) == s@[off + i] as nat + 256 * le_val(tail));
            let k = (n - i - 1) as nat;
            assert(pow256((k + 1) as nat) == 256 * pow256(k));
            lemma_pow256_increases((k + 1) as nat, 16);
            lemma_pow256_16();
        }
        acc = acc * 256 + (b as u128);
    }
    acc
}

/// Relies on `String::from_utf8`: it returns `Ok` exactly when the bytes are
/// valid UTF-8, and the returned string is their decoding.
#[verifier::external_body]
fn utf8_to_string(bytes: Vec<u8>) -> (r: Option<String>)
    ensures
        r is Some <==> valid_utf8(bytes@),
        r is Some ==> r.unwrap()@ == decode_utf8(bytes@),
{
    String::from_utf8(bytes).ok()
}

/// The string, if any, written at offset `off` of `s` in the host's
/// convention: a little-endian `u32` byte count, then that many bytes,
/// which must be valid UTF-8. On success, also the offset just past it.
pub open spec fn spec_decode_string(s: Seq<u8>, off: int) -> Option<(Seq<char>, int)> {
    if 0 <= off && off + 4 <= s.len() {
        let n = le_val(s.subrange(off, off + 4)) as int;
        if off + 4 + n <= s.len() {
            let bytes = s.subrange(off + 4, off + 4 + n);
            if valid_utf8(bytes) {
                Some((decode_utf8(bytes), off + 4 + n))
            } else {
                None
            }
        } else {
            None
        }
    } else {
        None
    }
}

/// Decodes a length-prefixed UTF-8 string from `s` at offset `off`,
/// returning it with the offset just past its last byte.
pub fn decode_string(s: &[u8], off: usize) -> (r: Option<(String, usize)>)
    requires
        off <= s@.len(),
    ensures
        r is Some <==> spec_decode_string(s@, off as int) is Some,
        r is Some ==> {
            let (txt, end) = spec_decode_string(s@, off as int).unwrap();
            r.unwrap().0@ == txt && r.unwrap().1 == end
        },
{
    if s.len() - off < 4 {
        return None;
    }
    let n128 = read_le(s, off, 4);
    proof {
        reveal_with_fuel(pow256, 5);
    }
    let n = n128 as usize;
    if n > s.len() - (off + 4) {
        return None;
    }
    let body = slice_subrange(s, off + 4, off + 4 + n);
    let bytes = slice_to_vec(body);
    match utf8_to_string(bytes) {
        Some(txt) => Some((txt, off + 4 + n)),
        None => None,
    }
}

/// The receipt, if any, written at the front of `s` in the host's
/// convention: its identifier, then its transaction hash (both
/// length-prefixed strings), then a 16-byte amount and an 8-byte timestamp,
/// both little-endian. Trailing bytes are ignored.
pub open spec fn spec_decode_receipt(s: Seq<u8>) -> Option<ReceiptView> {
    match spec_decode_string(s, 0) {
        Some((id, off1)) => match spec_decode_string(s, off1) {
            Some((tx, off2)) => if off2 + 24 <= s.len() {
                Some(
                    ReceiptView {
                        receipt_id: id,
                        tx_hash: tx,
                        amount_plt: le_val(s.subrange(off2, off2 + 16)) as u128,
                        ts_unix: le_val(s.subrange(off2 + 16, off2 + 24)) as u64,
                    },
                )
            } else {
                None
            },
            None => None,
        },
        None => None,
    }
}

/// Decodes a [`Receipt`] from the front of `s`.
pub fn decode_receipt(s: &[u8]) -> (r: Option<Receipt>)
    ensures
        r is Some <==> spec_decode_receipt(s@) is Some,
        r is Some ==> r.unwrap()@ == spec_decode_receipt(s@).unwrap(),
{
    let (receipt_id, off1) = match decode_string(s, 0) {
        Some(p) => p,
        None => {
            return None;
        },
    };
    let (tx_hash, off2) = match decode_string(s, off1) {
        Some(p) => p,
        None => {
            return None;
        },
    };
    if s.len() - off2 < 24 {
        return None;
    }
    let amount128 = read_le(s, off2, 16);
    let ts128 = read_le(s, off2 + 16, 8);
    proof {
        reveal_with_fuel(pow256, 9);
    }
    let amount_plt = amount128;
    let ts_unix = ts128 as u64;
    Some(Receipt { receipt_id, tx_hash, amount_plt, ts_unix })
}

} // verus!
