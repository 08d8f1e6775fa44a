use vstd::prelude::*;

pub mod hasher;
pub mod heavy_hash;
pub mod hex;
pub mod pow;
pub mod uint256;
pub mod xoshiro;

use crate::hasher::{pow_digest, pow_base_lanes, PowHasher};
use crate::hex::{encode_bytes, encode_word, hex_of_bytes, hex_padded};
use crate::pow::{astrobwtv3_hash, astrobwtv3_of};
use crate::uint256::Uint256;

verus! {

/// A small counter kept for host bindings.
pub struct MeTest(pub usize);

impl MeTest {
    pub fn new(id: usize) -> (r: Self)
        ensures
            r.0 == id,
    {
        MeTest(id)
    }

    /// `a + b`, added up ten thousand times.
    pub fn add(&self, a: i32, b: i32) -> (r: i32)
        requires
            -214748 <= a + b <= 214748,
        ensures
            r == 10000 * (a + b),
    {
        let mut sum: i32 = 0;
        let mut k: u32 = 0;
        while k < 10000
            invariant
                k <= 10000,
                -214748 <= a + b <= 214748,
                sum == k * (a + b),
            decreases 10000 - k,
        {
            assert(-2147483648 <= (k + 1) * (a + b) <= 2147483647) by (nonlinear_arith)
                requires
                    k < 10000,
                    -214748 <= a + b <= 214748,
            ;
            assert((k + 1) * (a + b) == k * (a + b) + (a + b)) by (nonlinear_arith);
            sum = sum + (a + b);
            k = k + 1;
        }
        sum
    }
}

/// Four words in lowercase hexadecimal, each without leading zeros but at least
/// two digits long, one after another.
pub open spec fn words_hex(w: Seq<u64>) -> Seq<char> {
    hex_padded(w[0] as nat, 2) + hex_padded(w[1] as nat, 2) + hex_padded(w[2] as nat, 2)
        + hex_padded(w[3] as nat, 2)
}

/// The proof-of-work digest of the fixed test job (pre-image words 1, 2, 3, 4,
/// timestamp 1, nonce 1) as `words_hex`. `bits` is not read.
#[allow(non_snake_case)]
pub fn bitsToTarget(bits: u32) -> (r: String)
    ensures
        r@ == words_hex(pow_digest(pow_base_lanes(seq![1u64, 2u64, 3u64, 4u64], 1), 1)),
{
    let pre: Uint256 = Uint256::new([1, 2, 3, 4]);
    assert(pre.0@ =~= seq![1u64, 2u64, 3u64, 4u64]);
    let digest: Uint256 = PowHasher::new(pre, 1).finalize_with_nonce(1);
    let mut s: String = encode_word(digest.0[0]);
    let mut i: usize = 1;
    while i < 4
        invariant
            1 <= i <= 4,
            s@ == if i == 1 {
                hex_padded(digest.0@[0] as nat, 2)
            } else if i == 2 {
                hex_padded(digest.0@[0] as nat, 2) + hex_padded(digest.0@[1] as nat, 2)
            } else if i == 3 {
                hex_padded(digest.0@[0] as nat, 2) + hex_padded(digest.0@[1] as nat, 2) + hex_padded(
                    digest.0@[2] as nat,
                    2,
                )
            } else {
                words_hex(digest.0@)
            },
        decreases 4 - i,
    {
        let part: String = encode_word(digest.0[i]);
        s.append(part.as_str());
        i = i + 1;
    }
    s
}

/// The 32 bytes that `astrobwtv3_encode` hashes.
pub const ASTROBWT_SAMPLE: [u8; 32] = [
    88, 101, 183, 41, 212, 156, 190, 48, 230, 97, 94, 105, 177, 86, 88, 84, 60, 239, 203, 124, 63,
    32, 160, 222, 34, 141, 50, 108, 138, 16, 90, 230,
];

/// The AstroBWTv3 digest of `ASTROBWT_SAMPLE` in lowercase hexadecimal. `input`
/// is not read.
pub fn astrobwtv3_encode(input: &str) -> (r: String)
    ensures
        r@ == hex_of_bytes(astrobwtv3_of(ASTROBWT_SAMPLE@)),
{
    let sample: [u8; 32] = ASTROBWT_SAMPLE;
    let hash_out: [u8; 32] = astrobwtv3_hash(sample.as_slice());
    encode_bytes(hash_out.as_slice())
}

} // verus!
