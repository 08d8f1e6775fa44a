use vstd::arithmetic::div_mod::*;
use vstd::arithmetic::mul::*;
use vstd::arithmetic::power::*;
use vstd::prelude::*;

verus! {

/// The word formed by eight little-endian bytes.
pub open spec fn le_word(b: Seq<u8>, off: int) -> u64 {
    (b[off] as u64) | ((b[off + 1] as u64) << 8u64) | ((b[off + 2] as u64) << 16u64) | ((
    b[off + 3] as u64) << 24u64) | ((b[off + 4] as u64) << 32u64) | ((b[off + 5] as u64)
        << 40u64) | ((b[off + 6] as u64) << 48u64) | ((b[off + 7] as u64) << 56u64)
}

/// Byte `k` (little-endian) of a word.
pub open spec fn word_byte(w: u64, k: u64) -> u8 {
    ((w >> (8 * k)) & 0xffu64) as u8
}

/// The 32 bytes of four words, little-endian throughout.
pub open spec fn words_to_le_bytes(w: Seq<u64>) -> Seq<u8> {
    Seq::new(32, |i: int| word_byte(w[i / 8], (i % 8) as u64))
}

/// The four words read from 32 little-endian bytes.
pub open spec fn le_bytes_to_words(b: Seq<u8>) -> Seq<u64> {
    Seq::new(4, |i: int| le_word(b, 8 * i))
}

/// The number that four little-endian words stand for.
pub open spec fn words_value(w: Seq<u64>) -> nat {
    (w[0] as nat) + (w[1] as nat) * 0x1_0000_0000_0000_0000 + (w[2] as nat) * 0x1_0000_0000_0000_0000
        * 0x1_0000_0000_0000_0000 + (w[3] as nat) * 0x1_0000_0000_0000_0000 * 0x1_0000_0000_0000_0000
        * 0x1_0000_0000_0000_0000
}

proof fn lemma_word_bytes(b0: u8, b1: u8, b2: u8, b3: u8, b4: u8, b5: u8, b6: u8, b7: u8)
    ensures
        ({
            let w = (b0 as u64) | ((b1 as u64) << 8u64) | ((b2 as u64) << 16u64) | ((b3 as u64)
                << 24u64) | ((b4 as u64) << 32u64) | ((b5 as u64) << 40u64) | ((b6 as u64) << 48u64)
                | ((b7 as u64) << 56u64);
            &&& ((w >> 0u64) & 0xffu64) as u8 == b0
            &&& ((w >> 8u64) & 0xffu64) as u8 == b1
            &&& ((w >> 16u64) & 0xffu64) as u8 == b2
            &&& ((w >> 24u64) & 0xffu64) as u8 == b3
            &&& ((w >> 32u64) & 0xffu64) as u8 == b4
            &&& ((w >> 40u64) & 0xffu64) as u8 == b5
            &&& ((w >> 48u64) & 0xffu64) as u8 == b6
            &&& ((w >> 56u64) & 0xffu64) as u8 == b7
        }),
{
    assert({
        let w = (b0 as u64) | ((b1 as u64) << 8u64) | ((b2 as u64) << 16u64) | ((b3 as u64) << 24u64)
            | ((b4 as u64) << 32u64) | ((b5 as u64) << 40u64) | ((b6 as u64) << 48u64) | ((
        b7 as u64) << 56u64);
        &&& ((w >> 0u64) & 0xffu64) as u8 == b0
        &&& ((w >> 8u64) & 0xffu64) as u8 == b1
        &&& ((w >> 16u64) & 0xffu64) as u8 == b2
        &&& ((w >> 24u64) & 0xffu64) as u8 == b3
        &&& ((w >> 32u64) & 0xffu64) as u8 == b4
        &&& ((w >> 40u64) & 0xffu64) as u8 == b5
        &&& ((w >> 48u64) & 0xffu64) as u8 == b6
        &&& ((w >> 56u64) & 0xffu64) as u8 == b7
    }) by (bit_vector);
}

proof fn lemma_bytes_word(w: u64)
    ensures
        w == ((((w >> 0u64) & 0xffu64) as u8) as u64) | (((((w >> 8u64) & 0xffu64) as u8) as u64)
            << 8u64) | (((((w >> 16u64) & 0xffu64) as u8) as u64) << 16u64) | (((((w >> 24u64)
            & 0xffu64) as u8) as u64) << 24u64) | (((((w >> 32u64) & 0xffu64) as u8) as u64)
            << 32u64) | (((((w >> 40u64) & 0xffu64) as u8) as u64) << 40u64) | (((((w >> 48u64)
            & 0xffu64) as u8) as u64) << 48u64) | (((((w >> 56u64) & 0xffu64) as u8) as u64)
            << 56u64),
{
    assert(w == ((((w >> 0u64) & 0xffu64) as u8) as u64) | (((((w >> 8u64) & 0xffu64) as u8) as u64)
        << 8u64) | (((((w >> 16u64) & 0xffu64) as u8) as u64) << 16u64) | (((((w >> 24u64)
        & 0xffu64) as u8) as u64) << 24u64) | (((((w >> 32u64) & 0xffu64) as u8) as u64)
        << 32u64) | (((((w >> 40u64) & 0xffu64) as u8) as u64) << 40u64) | (((((w >> 48u64)
        & 0xffu64) as u8) as u64) << 48u64) | (((((w >> 56u64) & 0xffu64) as u8) as u64)
        << 56u64)) by (bit_vector);
}

/// Reading the bytes of words gives back the words.
pub proof fn lemma_words_round_trip(w: Seq<u64>)
    requires
        w.len() == 4,
    ensures
        le_bytes_to_words(words_to_le_bytes(w)) == w,
{
    let b = words_to_le_bytes(w);
    assert forall|i: int| 0 <= i < 4 implies #[trigger] le_bytes_to_words(b)[i] == w[i] by {
        lemma_bytes_word(w[i]);
        assert(b[8 * i] == word_byte(w[i], 0));
        assert(b[8 * i + 1] == word_byte(w[i], 1));
        assert(b[8 * i + 2] == word_byte(w[i], 2));
        assert(b[8 * i + 3] == word_byte(w[i], 3));
        assert(b[8 * i + 4] == word_byte(w[i], 4));
        assert(b[8 * i + 5] == word_byte(w[i], 5));
        assert(b[8 * i + 6] == word_byte(w[i], 6));
        assert(b[8 * i + 7] == word_byte(w[i], 7));
    }
    assert(le_bytes_to_words(b) =~= w);
}

/// Writing the words read from 32 bytes gives back the bytes.
pub proof fn lemma_bytes_round_trip(b: Seq<u8>)
    requires
        b.len() == 32,
    ensures
        words_to_le_bytes(le_bytes_to_words(b)) == b,
{
    let w = le_bytes_to_words(b);
    assert forall|i: int| 0 <= i < 32 implies #[trigger] words_to_le_bytes(w)[i] == b[i] by {
        let q = i / 8;
        let o = 8 * q;
        lemma_word_bytes(b[o], b[o + 1], b[o + 2], b[o + 3], b[o + 4], b[o + 5], b[o + 6], b[o + 7]);
        assert(w[q] == le_word(b, o));
    }
    assert(words_to_le_bytes(w) =~= b);
}

/// 2^64.
pub open spec fn word_modulus() -> nat {
    0x1_0000_0000_0000_0000
}

/// 2^256: one more than the largest value four words hold.
pub open spec fn u256_modulus() -> nat {
    word_modulus() * word_modulus() * word_modulus() * word_modulus()
}

/// The mantissa of a compact ("bits") encoding: its low 24 bits, cut down by whole
/// bytes when the exponent byte is under 3.
pub open spec fn compact_mantissa(bits: u32) -> u32 {
    let e = bits >> 24u32;
    if e <= 3 {
        (bits & 0xffffffu32) >> (8 * (3 - e)) as u32
    } else {
        bits & 0xffffffu32
    }
}

/// How many whole bytes the mantissa of a compact encoding is moved up by.
pub open spec fn compact_shift_bytes(bits: u32) -> nat {
    let e = bits >> 24u32;
    if e <= 3 {
        0
    } else {
        (e - 3) as nat
    }
}

/// The number a compact encoding stands for: the mantissa times 256 to the
/// shift, cut to 256 bits; zero where the mantissa's sign bit is set.
pub open spec fn compact_value(bits: u32) -> nat {
    if compact_mantissa(bits) > 0x7fffff {
        0
    } else {
        ((compact_mantissa(bits) as int * pow(256, compact_shift_bytes(bits))) % (
        u256_modulus() as int)) as nat
    }
}

proof fn lemma_word_shift8(x: u64, lo: u64)
    ensures
        (x << 8u64) | (lo >> 56u64) == (x << 8u64) + (lo >> 56u64),
        (x << 8u64) as int == (x as int * 256) % (word_modulus() as int),
        (x >> 56u64) as int == (x as int * 256) / (word_modulus() as int),
{
    assert((x << 8u64) | (lo >> 56u64) == (x << 8u64) + (lo >> 56u64)) by (bit_vector);
    assert((x << 8u64) == ((x as int * 256) % 0x1_0000_0000_0000_0000) as u64) by (bit_vector);
    assert((x >> 56u64) == ((x as int * 256) / 0x1_0000_0000_0000_0000) as u64) by (bit_vector);
}

#[verifier::rlimit(50)]
proof fn lemma_shift8_value(w: Seq<u64>, r: Seq<u64>)
    requires
        w.len() == 4,
        r.len() == 4,
        r[0] == w[0] << 8u64,
        r[1] == (w[1] << 8u64) | (w[0] >> 56u64),
        r[2] == (w[2] << 8u64) | (w[1] >> 56u64),
        r[3] == (w[3] << 8u64) | (w[2] >> 56u64),
    ensures
        words_value(r) as int == (words_value(w) as int * 256) % (u256_modulus() as int),
{
    let m = word_modulus() as int;
    lemma_word_shift8(w[0], 0);
    lemma_word_shift8(w[1], w[0]);
    lemma_word_shift8(w[2], w[1]);
    lemma_word_shift8(w[3], w[2]);
    let a = w[0] as int;
    let b = w[1] as int;
    let c = w[2] as int;
    let d = w[3] as int;
    lemma_fundamental_div_mod(a * 256, m);
    lemma_fundamental_div_mod(b * 256, m);
    lemma_fundamental_div_mod(c * 256, m);
    lemma_fundamental_div_mod(d * 256, m);
    let (ha, la) = ((a * 256) / m, (a * 256) % m);
    let (hb, lb) = ((b * 256) / m, (b * 256) % m);
    let (hc, lc) = ((c * 256) / m, (c * 256) % m);
    let (hd, ld) = ((d * 256) / m, (d * 256) % m);
    let v = words_value(w) as int;
    let rv = words_value(r) as int;
    assert(rv == la + (lb + ha) * m + (lc + hb) * m * m + (ld + hc) * m * m * m);
    assert(v * 256 == rv + hd * (m * m * m * m)) by (nonlinear_arith)
        requires
            v == a + b * m + c * m * m + d * m * m * m,
            rv == la + (lb + ha) * m + (lc + hb) * m * m + (ld + hc) * m * m * m,
            a * 256 == ha * m + la,
            b * 256 == hb * m + lb,
            c * 256 == hc * m + lc,
            d * 256 == hd * m + ld,
    ;
    let mm = u256_modulus() as int;
    assert(mm == m * m * m * m);
    assert(0 <= rv < mm) by (nonlinear_arith)
        requires
            rv == r[0] as int + (r[1] as int) * m + (r[2] as int) * m * m + (r[3] as int) * m * m
                * m,
            0 <= r[0] < m,
            0 <= r[1] < m,
            0 <= r[2] < m,
            0 <= r[3] < m,
            mm == m * m * m * m,
            m > 0,
    ;
    lemma_fundamental_div_mod_converse(v * 256, mm, hd, rv);
}

/// A 256-bit unsigned integer held as four little-endian 64-bit words.
#[derive(Clone, Copy, Debug, PartialEq, Eq)]
pub struct Uint256(pub [u64; 4]);

impl Uint256 {
    /// The number this value stands for.
    pub open spec fn value(&self) -> nat {
        words_value(self.0@)
    }

    pub fn new(words: [u64; 4]) -> (r: Self)
        ensures
            r.0@ == words@,
    {
        Uint256(words)
    }

    /// Decodes a compact ("bits") difficulty encoding.
    pub fn from_compact_target(bits: u32) -> (r: Self)
        ensures
            r.value() == compact_value(bits),
    {
        let e: u32 = bits >> 24u32;
        let mant: u32 = if e <= 3 {
            (bits & 0xffffffu32) >> (8 * (3 - e))
        } else {
            bits & 0xffffffu32
        };
        let shift: u32 = if e <= 3 {
            0
        } else {
            e - 3
        };
        assert(mant == compact_mantissa(bits));
        if mant > 0x7fffff {
            let z = Uint256([0u64; 4]);
            assert(z.value() == 0);
            return z;
        }
        let mut w: [u64; 4] = [mant as u64, 0, 0, 0];
        let mut k: u32 = 0;
        proof {
            lemma_pow0(256);
            assert(0 <= mant < u256_modulus()) by (nonlinear_arith)
                requires
                    u256_modulus() == word_modulus() * word_modulus() * word_modulus()
                        * word_modulus(),
                    word_modulus() > 0x7fffff,
                    mant <= 0x7fffff,
            ;
            lemma_small_mod(mant as nat, u256_modulus());
        }
        while k < shift
            invariant
                k <= shift,
                shift as nat == compact_shift_bytes(bits),
                w@.len() == 4,
                words_value(w@) as int == (mant as int * pow(256, k as nat)) % (
                u256_modulus() as int),
            decreases shift - k,
        {
            let old_w: Ghost<Seq<u64>> = Ghost(w@);
            let w3: u64 = (w[3] << 8u64) | (w[2] >> 56u64);
            let w2: u64 = (w[2] << 8u64) | (w[1] >> 56u64);
            let w1: u64 = (w[1] << 8u64) | (w[0] >> 56u64);
            let w0: u64 = w[0] << 8u64;
            w = [w0, w1, w2, w3];
            proof {
                lemma_shift8_value(old_w@, w@);
                let mm = u256_modulus() as int;
                let x = mant as int * pow(256, k as nat);
                lemma_mul_mod_noop_left(x, 256, mm);
                lemma_pow_adds(256, k as nat, 1);
                lemma_pow1(256);
                lemma_mul_is_associative(mant as int, pow(256, k as nat), 256);
            }
            k = k + 1;
        }
        Uint256(w)
    }

    pub fn from_le_bytes(bytes: [u8; 32]) -> (r: Self)
        ensures
            r.0@ == le_bytes_to_words(bytes@),
    {
        let mut words: [u64; 4] = [0u64; 4];
        let mut i: usize = 0;
        while i < 4
            invariant
                0 <= i <= 4,
                words@.len() == 4,
                forall|j: int| 0 <= j < i ==> words@[j] == le_word(bytes@, 8 * j),
            decreases 4 - i,
        {
            let o: usize = 8 * i;
            let w: u64 = (bytes[o] as u64) | ((bytes[o + 1] as u64) << 8u64) | ((bytes[o + 2] as u64)
                << 16u64) | ((bytes[o + 3] as u64) << 24u64) | ((bytes[o + 4] as u64) << 32u64) | ((
            bytes[o + 5] as u64) << 40u64) | ((bytes[o + 6] as u64) << 48u64) | ((bytes[o + 7] as u64)
                << 56u64);
            words[i] = w;
            i = i + 1;
        }
        let r = Uint256(words);
        assert(r.0@ =~= le_bytes_to_words(bytes@));
        r
    }

    pub fn to_le_bytes(&self) -> (r: [u8; 32])
        ensures
            r@ == words_to_le_bytes(self.0@),
    {
        let mut out: [u8; 32] = [0u8; 32];
        let mut i: usize = 0;
        while i < 32
            invariant
                0 <= i <= 32,
                out@.len() == 32,
                forall|j: int| 0 <= j < i ==> out@[j] == words_to_le_bytes(self.0@)[j],
            decreases 32 - i,
        {
            let k: u64 = (i % 8) as u64;
            out[i] = ((self.0[i / 8] >> (8 * k)) & 0xffu64) as u8;
            i = i + 1;
        }
        assert(out@ =~= words_to_le_bytes(self.0@));
        out
    }
}

} // verus!
