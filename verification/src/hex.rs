//! Fixed-width hexadecimal rendering of fingerprints.
//!
//! A 128-bit fingerprint is logged as `0x` followed by exactly 32 lowercase
//! hexadecimal digits, zero-padded, 34 bytes in all.

use vstd::prelude::*;

verus! {

/// The ASCII character for `v`'s lowest hexadecimal digit, lowercase.
pub open spec fn hex_digit(v: nat) -> u8 {
    if v % 16 < 10 {
        (48 + v % 16) as u8
    } else {
        (87 + v % 16) as u8
    }
}

/// The lowest `width` hexadecimal digits of `v` as ASCII bytes, most
/// significant first, zero-padded to exactly `width` bytes.
pub open spec fn padded_hex(v: nat, width: nat) -> Seq<u8>
    decreases width,
{
    if width == 0 {
        Seq::empty()
    } else {
        padded_hex(v / 16, (width - 1) as nat) + seq![hex_digit(v)]
    }
}

/// The rendering of a fingerprint: `0x` and 32 zero-padded lowercase
/// hexadecimal digits.
pub open spec fn fingerprint_hex_seq(fp: u128) -> Seq<u8> {
    seq![48u8, 120u8] + padded_hex(fp as nat, 32)
}

/// A zero-padded hexadecimal rendering has exactly `width` bytes.
pub proof fn lemma_padded_hex_len(v: nat, width: nat)
    ensures
        padded_hex(v, width).len() == width,
    decreases width,
{
    if width > 0 {
        lemma_padded_hex_len(v / 16, (width - 1) as nat);
    }
}

/// Append the lowest `width` hexadecimal digits of `v` to `out`, most
/// significant first, zero-padded to exactly `width` bytes.
fn push_padded_hex(out: &mut Vec<u8>, v: u128, width: u32)
    ensures
        final(out)@ == old(out)@ + padded_hex(v as nat, width as nat),
    decreases width,
{
    if width > 0 {
        push_padded_hex(out, v / 16, width - 1);
        let r: u8 = (v % 16) as u8;
        let d: u8 = if r < 10 {
            48 + r
        } else {
            87 + r
        };
        out.push(d);
        proof {
            assert(out@ =~= old(out)@ + padded_hex(v as nat, width as nat));
        }
    } else {
        proof {
            assert(old(out)@ + padded_hex(v as nat, 0) =~= old(out)@);
        }
    }
}

/// Render a fingerprint as `0x` followed by its 32 zero-padded lowercase
/// hexadecimal digits.
pub fn format_fingerprint(fp: u128) -> (r: Vec<u8>)
    ensures
        r@ == fingerprint_hex_seq(fp),
        r@.len() == 34,
{
    let mut out: Vec<u8> = Vec::new();
    out.push(48);
    out.push(120);
    push_padded_hex(&mut out, fp, 32);
    proof {
        assert(out@ =~= fingerprint_hex_seq(fp));
        lemma_padded_hex_len(fp as nat, 32);
    }
    out
}

} // verus!
