//! The variable-length unsigned integer encoding that the binary format uses for every
//! count, index and size.

use vstd::prelude::*;

verus! {

/// The unsigned LEB128 encoding of `n`: seven bits per byte, least significant group
/// first, the top bit of a byte set while more bytes follow.
pub open spec fn uleb128(n: nat) -> Seq<u8>
    decreases n,
{
    if n < 128 {
        seq![n as u8]
    } else {
        seq![(n % 128 + 128) as u8] + uleb128(n / 128)
    }
}

/// The number of bytes of `uleb128(n)`.
pub open spec fn uleb128_len(n: nat) -> nat
    decreases n,
{
    if n < 128 {
        1
    } else {
        1 + uleb128_len(n / 128)
    }
}

/// `uleb128_len` is the length of `uleb128`.
pub proof fn lemma_uleb128_len(n: nat)
    ensures
        uleb128(n).len() == uleb128_len(n),
    decreases n,
{
    if n >= 128 {
        lemma_uleb128_len(n / 128);
    }
}

/// A value below 2^32 takes at most five bytes, one below 2^64 at most ten.
pub proof fn lemma_uleb128_len_bounds(n: nat)
    ensures
        1 <= uleb128_len(n),
        n <= 0xffff_ffff ==> uleb128_len(n) <= 5,
        n <= 0xffff_ffff_ffff_ffff ==> uleb128_len(n) <= 10,
{
    reveal_with_fuel(uleb128_len, 11);
}

/// Computes the length of the encoding of `n`.
pub fn uleb128_size(n: u64) -> (len: u64)
    ensures
        len == uleb128_len(n as nat),
        1 <= len <= 10,
{
    let mut rest: u64 = n;
    let mut len: u64 = 1;
    proof {
        lemma_uleb128_len_bounds(n as nat);
    }
    while rest >= 128
        invariant
            1 <= len,
            len + uleb128_len(rest as nat) == uleb128_len(n as nat) + 1,
            uleb128_len(n as nat) <= 10,
        decreases rest,
    {
        proof {
            lemma_uleb128_len_bounds((rest / 128) as nat);
        }
        rest = rest / 128;
        len = len + 1;
    }
    len
}

} // verus!
