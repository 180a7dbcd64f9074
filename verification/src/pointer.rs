//! Little-endian byte strings and the numbers they stand for.
//!
//! Every pointer, length and call id of the bytecode is written as a
//! little-endian byte string of fixed length. This module holds the
//! mathematical model of that encoding and the facts the rest of the crate
//! needs about it.

use vstd::arithmetic::div_mod::{
    lemma_div_denominator, lemma_fundamental_div_mod, lemma_mod_breakdown, lemma_small_mod,
};
use vstd::arithmetic::power::{lemma_pow_positive, pow};
use vstd::prelude::*;

verus! {

/// 256 to the power of `len`: the number of byte strings of length `len`.
pub open spec fn radix(len: nat) -> nat {
    pow(256, len) as nat
}

/// The number that a little-endian byte string stands for.
pub open spec fn le_value(bytes: Seq<u8>) -> nat
    decreases bytes.len(),
{
    if bytes.len() == 0 {
        0
    } else {
        bytes[0] as nat + 256 * le_value(bytes.drop_first())
    }
}

/// The byte at position `i` of the little-endian encoding of `n`.
pub open spec fn le_byte(n: nat, i: int) -> u8 {
    ((n / radix(i as nat)) % 256) as u8
}

/// The little-endian encoding of `n` in `len` bytes. Digits of `n` beyond
/// the first `len` are left out.
pub open spec fn le_bytes(n: nat, len: nat) -> Seq<u8> {
    Seq::new(len, |i: int| le_byte(n, i))
}

/// `radix` is positive, starts at 1 and grows by a factor of 256 per byte.
pub proof fn lemma_radix(len: nat)
    ensures
        radix(len) > 0,
        radix(0) == 1,
        radix(len + 1) == 256 * radix(len),
        pow(256, len) == radix(len),
{
    lemma_pow_positive(256, len);
    lemma_pow_positive(256, len + 1);
    reveal(pow);
    assert(pow(256, 0) == 1);
    assert(pow(256, (len + 1) as nat) == 256 * pow(256, len));
}

/// The widths that the bytecode uses, written out.
pub proof fn lemma_radix_values()
    ensures
        radix(1) == 0x100,
        radix(2) == 0x1_0000,
        radix(3) == 0x100_0000,
        radix(4) == 0x1_0000_0000,
        radix(5) == 0x100_0000_0000,
        radix(6) == 0x1_0000_0000_0000,
        radix(7) == 0x100_0000_0000_0000,
        radix(8) == 0x1_0000_0000_0000_0000,
{
    lemma_radix(0);
    lemma_radix(1);
    lemma_radix(2);
    lemma_radix(3);
    lemma_radix(4);
    lemma_radix(5);
    lemma_radix(6);
    lemma_radix(7);
}

/// A byte string of length `len` stands for a number below `radix(len)`.
pub proof fn lemma_le_value_bound(bytes: Seq<u8>)
    ensures
        le_value(bytes) < radix(bytes.len()),
    decreases bytes.len(),
{
    if bytes.len() == 0 {
        lemma_radix(0);
    } else {
        let rest = bytes.drop_first();
        lemma_le_value_bound(rest);
        lemma_radix(rest.len());
        assert(bytes.len() == rest.len() + 1);
        assert(le_value(bytes) <= 255 + 256 * (radix(rest.len()) - 1));
    }
}

/// Dropping the first byte of an encoding gives the encoding of `n / 256`.
proof fn lemma_le_bytes_drop_first(n: nat, len: nat)
    requires
        len > 0,
    ensures
        le_bytes(n, len).drop_first() =~= le_bytes(n / 256, (len - 1) as nat),
        le_bytes(n, len)[0] == (n % 256) as u8,
{
    lemma_radix(0);
    assert(n / 1 == n);
    assert forall|i: int| 0 <= i < len - 1 implies le_byte(n, i + 1) == #[trigger] le_byte(
        n / 256,
        i,
    ) by {
        lemma_radix(i as nat);
        lemma_div_denominator(n as int, 256, radix(i as nat) as int);
        assert(256 * radix(i as nat) == radix((i + 1) as nat));
    }
}

/// Decoding an encoding gives the number back, up to the digits that the
/// length leaves room for.
pub proof fn lemma_le_value_of_le_bytes(n: nat, len: nat)
    ensures
        le_bytes(n, len).len() == len,
        le_value(le_bytes(n, len)) == n % radix(len),
    decreases len,
{
    if len == 0 {
        lemma_radix(0);
        assert(n % 1 == 0);
    } else {
        let rest_len = (len - 1) as nat;
        lemma_le_bytes_drop_first(n, len);
        lemma_le_value_of_le_bytes(n / 256, rest_len);
        lemma_radix(rest_len);
        lemma_mod_breakdown(n as int, 256, radix(rest_len) as int);
        assert(n % 256 < 256);
        assert(le_bytes(n, len)[0] as nat == n % 256);
        assert(le_value(le_bytes(n, len)) == n % 256 + 256 * ((n / 256) % radix(rest_len)));
        assert(256 * radix(rest_len) == radix(len));
    }
}

/// A number that fits in `len` bytes survives encoding and decoding.
pub proof fn lemma_le_round_trip(n: nat, len: nat)
    requires
        n < radix(len),
    ensures
        le_bytes(n, len).len() == len,
        le_value(le_bytes(n, len)) == n,
{
    lemma_le_value_of_le_bytes(n, len);
    lemma_small_mod(n, radix(len));
}

/// Encoding what a byte string stands for gives the byte string back.
pub proof fn lemma_le_bytes_of_le_value(bytes: Seq<u8>)
    ensures
        le_bytes(le_value(bytes), bytes.len()) =~= bytes,
    decreases bytes.len(),
{
    if bytes.len() > 0 {
        let rest = bytes.drop_first();
        let n = le_value(bytes);
        lemma_le_bytes_of_le_value(rest);
        lemma_le_bytes_drop_first(n, bytes.len());
        lemma_fundamental_div_mod_converse_256(n, le_value(rest), bytes[0] as nat);
        let enc = le_bytes(n, bytes.len());
        assert(enc.drop_first() =~= rest);
        assert forall|i: int| 0 <= i < bytes.len() implies enc[i] == bytes[i] by {
            if i > 0 {
                assert(enc[i] == enc.drop_first()[i - 1]);
                assert(bytes[i] == rest[i - 1]);
            }
        }
    }
}

/// Quotient and remainder by 256 of `r + 256 * q` for a byte `r`.
proof fn lemma_fundamental_div_mod_converse_256(n: nat, q: nat, r: nat)
    requires
        n == r + 256 * q,
        r < 256,
    ensures
        n / 256 == q,
        n % 256 == r,
{
    lemma_fundamental_div_mod(n as int, 256);
}

/// The first byte and the remaining bytes of a window into a byte string.
pub proof fn lemma_le_value_unfold(bytes: Seq<u8>, from: int, to: int)
    requires
        0 <= from < to <= bytes.len(),
    ensures
        le_value(bytes.subrange(from, to)) == bytes[from] as nat + 256 * le_value(
            bytes.subrange(from + 1, to),
        ),
{
    assert(bytes.subrange(from, to).drop_first() =~= bytes.subrange(from + 1, to));
}

} // verus!
