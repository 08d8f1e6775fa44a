use vstd::prelude::*;

use crate::hasher::{pow_base_lanes, pow_digest, PowHasher};
use crate::heavy_hash::{generated_from, heavy_hash_words, Matrix, MAX_MATRIX_DRAWS};
use crate::hex::{encode_bytes, hex_of_bytes};
use crate::uint256::{le_bytes_to_words, words_to_le_bytes, Uint256};
use crate::xoshiro::xo_seed;

verus! {

/// What the AstroBWTv3 memory-hard hash makes of the given bytes.
pub uninterp spec fn astrobwtv3_of(input: Seq<u8>) -> Seq<u8>;

/// Relies on spectrex::astrobwtv3::astrobwtv3_hash: a 32-byte digest that depends
/// on the input bytes alone.
#[verifier::external_body]
pub(crate) fn astrobwtv3_hash(input: &[u8]) -> (r: [u8; 32])
    ensures
        r@ == astrobwtv3_of(input@),
{
    spectrex::astrobwtv3::astrobwtv3_hash(input)
}

/// Why a mining job could not be built.
#[derive(Clone, Copy, Debug, PartialEq, Eq, Structural)]
pub enum PowError {
    /// The pre-image hash is not exactly 32 bytes long.
    LengthMismatch,
    /// No matrix of full rank came up within `MAX_MATRIX_DRAWS` candidates.
    MatrixGenerationExhausted,
}

/// The matrix of a job whose pre-image hash has the given 32 bytes.
pub open spec fn job_matrix(pre_pow_hash: Seq<u8>) -> Option<Seq<Seq<u16>>> {
    generated_from(xo_seed(le_bytes_to_words(pre_pow_hash)), MAX_MATRIX_DRAWS as nat)
}

/// The first 32-byte digest for a nonce, before the memory-hard hash.
pub open spec fn pre_bwt_bytes(base: Seq<u64>, nonce: u64) -> Seq<u8> {
    words_to_le_bytes(pow_digest(base, nonce))
}

/// The result for a given output of the memory-hard hash: the matrix transform,
/// its bytes reversed (most significant first).
pub open spec fn finish_bytes(m: Seq<Seq<u16>>, bwt_hash: Seq<u8>) -> Seq<u8> {
    words_to_le_bytes(heavy_hash_words(m, le_bytes_to_words(bwt_hash))).reverse()
}

/// The proof-of-work result of a job for a nonce, most significant byte first.
pub open spec fn pow_bytes(base: Seq<u64>, m: Seq<Seq<u16>>, nonce: u64) -> Seq<u8> {
    finish_bytes(m, astrobwtv3_of(pre_bwt_bytes(base, nonce)))
}

/// One mining job: the matrix and the sponge base of a (pre-image hash,
/// timestamp) pair, from which any number of nonces are evaluated.
#[derive(Clone)]
pub struct State {
    pub id: usize,
    pub matrix: Matrix,
    pub nonce: u64,
    pub hasher: PowHasher,
}

impl State {
    /// The sponge lanes shared by all nonces of the job.
    pub open spec fn base(&self) -> Seq<u64> {
        self.hasher.0@
    }

    /// The job's matrix.
    pub open spec fn matrix(&self) -> Seq<Seq<u16>> {
        self.matrix@
    }

    pub open spec fn wf(&self) -> bool {
        self.matrix.wf()
    }

    pub fn new(id: usize, pre_pow_hash: &[u8], timestamp: u64) -> (r: Result<Self, PowError>)
        ensures
            match r {
                Ok(s) => {
                    &&& pre_pow_hash@.len() == 32
                    &&& job_matrix(pre_pow_hash@) == Some(s.matrix())
                    &&& s.base() == pow_base_lanes(le_bytes_to_words(pre_pow_hash@), timestamp)
                    &&& s.id == id
                    &&& s.nonce == 0
                    &&& s.wf()
                },
                Err(PowError::LengthMismatch) => pre_pow_hash@.len() != 32,
                Err(PowError::MatrixGenerationExhausted) => pre_pow_hash@.len() == 32 && job_matrix(
                    pre_pow_hash@,
                ) is None,
            },
    {
        if pre_pow_hash.len() != 32 {
            return Err(PowError::LengthMismatch);
        }
        let mut fixed: [u8; 32] = [0u8; 32];
        let mut i: usize = 0;
        while i < 32
            invariant
                0 <= i <= 32,
                pre_pow_hash@.len() == 32,
                forall|j: int| 0 <= j < i ==> #[trigger] fixed@[j] == pre_pow_hash@[j],
            decreases 32 - i,
        {
            fixed[i] = pre_pow_hash[i];
            i = i + 1;
        }
        assert(fixed@ =~= pre_pow_hash@);
        let hasher = PowHasher::new(Uint256::from_le_bytes(fixed), timestamp);
        match Matrix::generate(Uint256::from_le_bytes(fixed)) {
            Some(matrix) => Ok(State { id, matrix, nonce: 0, hasher }),
            None => Err(PowError::MatrixGenerationExhausted),
        }
    }

    /// The digest of the job's base and `nonce`, as bytes, before the
    /// memory-hard hash.
    pub fn pre_bwt_hash(&self, nonce: u64) -> (r: [u8; 32])
        ensures
            r@ == pre_bwt_bytes(self.base(), nonce),
    {
        self.hasher.finalize_with_nonce(nonce).to_le_bytes()
    }

    /// What follows the memory-hard hash: the matrix transform of its output,
    /// with the bytes reversed.
    pub fn finish_pow(&self, bwt_hash: [u8; 32]) -> (r: [u8; 32])
        requires
            self.wf(),
        ensures
            r@ == finish_bytes(self.matrix(), bwt_hash@),
    {
        let le_bytes: [u8; 32] = self.matrix.heavy_hash(Uint256::from_le_bytes(bwt_hash)).to_le_bytes();
        let mut out: [u8; 32] = [0u8; 32];
        let mut i: usize = 0;
        while i < 32
            invariant
                0 <= i <= 32,
                forall|j: int| 0 <= j < i ==> #[trigger] out@[j] == le_bytes@[31 - j],
            decreases 32 - i,
        {
            out[i] = le_bytes[31 - i];
            i = i + 1;
        }
        assert(out@ =~= le_bytes@.reverse());
        out
    }

    /// The proof-of-work result for `nonce`, most significant byte first.
    pub fn calculate(&self, nonce: u64) -> (r: [u8; 32])
        requires
            self.wf(),
        ensures
            r@ == pow_bytes(self.base(), self.matrix(), nonce),
    {
        let first: [u8; 32] = self.pre_bwt_hash(nonce);
        let bwt_hash: [u8; 32] = astrobwtv3_hash(first.as_slice());
        self.finish_pow(bwt_hash)
    }

    /// The proof-of-work result for `nonce` in lowercase hexadecimal.
    pub fn calculate_pow(&self, nonce: u64) -> (r: String)
        requires
            self.wf(),
        ensures
            r@ == hex_of_bytes(pow_bytes(self.base(), self.matrix(), nonce)),
    {
        let bytes: [u8; 32] = self.calculate(nonce);
        encode_bytes(bytes.as_slice())
    }
}

/// Why hexadecimal text could not be decoded.
#[derive(Clone, Copy, Debug, PartialEq, Eq, Structural)]
pub enum FromHexError {
    OddLength,
    InvalidStringLength,
    InvalidHexCharacter { c: char, index: usize },
}

/// The value of a hexadecimal digit in either case, `None` for any other byte.
pub open spec fn hex_val(c: u8) -> Option<u8> {
    if 65 <= c <= 70 {
        Some((c - 55) as u8)
    } else if 97 <= c <= 102 {
        Some((c - 87) as u8)
    } else if 48 <= c <= 57 {
        Some((c - 48) as u8)
    } else {
        None
    }
}

/// Every byte before `k` is a hexadecimal digit.
pub open spec fn hex_valid_before(data: Seq<u8>, k: int) -> bool {
    forall|j: int| 0 <= j < k ==> (#[trigger] hex_val(data[j])) is Some
}

/// Byte `i` of the decoding of `data`.
pub open spec fn decoded_byte(data: Seq<u8>, i: int) -> u8 {
    (hex_val(data[2 * i])->0 * 16 + hex_val(data[2 * i + 1])->0) as u8
}

/// The bytes that well-formed hexadecimal text stands for.
pub open spec fn decode_hex(data: Seq<u8>) -> Seq<u8> {
    Seq::new(data.len() / 2, |i: int| decoded_byte(data, i))
}

fn val(c: u8, idx: usize) -> (r: Result<u8, FromHexError>)
    ensures
        match r {
            Ok(v) => hex_val(c) == Some(v) && v < 16,
            Err(e) => hex_val(c) is None && e == (FromHexError::InvalidHexCharacter {
                c: c as char,
                index: idx,
            }),
        },
{
    if 65 <= c && c <= 70 {
        Ok(c - 55)
    } else if 97 <= c && c <= 102 {
        Ok(c - 87)
    } else if 48 <= c && c <= 57 {
        Ok(c - 48)
    } else {
        Err(FromHexError::InvalidHexCharacter { c: c as char, index: idx })
    }
}

/// Decodes hexadecimal text into `out`, which it must fill exactly. On a bad digit
/// the bytes before it stay decoded in `out`.
pub fn decode_to_slice(data: &[u8], out: &mut [u8]) -> (r: Result<(), FromHexError>)
    ensures
        match r {
            Ok(()) => {
                &&& data@.len() % 2 == 0
                &&& data@.len() / 2 == old(out)@.len()
                &&& hex_valid_before(data@, data@.len() as int)
                &&& final(out)@ == decode_hex(data@)
            },
            Err(FromHexError::OddLength) => data@.len() % 2 != 0 && final(out)@ == old(out)@,
            Err(FromHexError::InvalidStringLength) => {
                &&& data@.len() % 2 == 0
                &&& data@.len() / 2 != old(out)@.len()
                &&& final(out)@ == old(out)@
            },
            Err(FromHexError::InvalidHexCharacter { c, index }) => {
                &&& data@.len() % 2 == 0
                &&& data@.len() / 2 == old(out)@.len()
                &&& index < data@.len()
                &&& hex_valid_before(data@, index as int)
                &&& hex_val(data@[index as int]) is None
                &&& c == data@[index as int] as char
                &&& final(out)@ == decode_hex(data@).subrange(0, index as int / 2) + old(out)@.subrange(
                    index as int / 2,
                    old(out)@.len() as int,
                )
            },
        },
{
    if data.len() % 2 != 0 {
        return Err(FromHexError::OddLength);
    }
    if data.len() / 2 != out.len() {
        return Err(FromHexError::InvalidStringLength);
    }
    let n: usize = out.len();
    let mut i: usize = 0;
    while i < n
        invariant
            0 <= i <= n,
            n == out@.len(),
            n == old(out)@.len(),
            data@.len() == 2 * n,
            2 * n <= usize::MAX,
            hex_valid_before(data@, 2 * i),
            out@ == decode_hex(data@).subrange(0, i as int) + old(out)@.subrange(i as int, n as int),
        decreases n - i,
    {
        let hi: u8 = match val(data[2 * i], 2 * i) {
            Ok(v) => v,
            Err(e) => {
                assert(decode_hex(data@).subrange(0, (2 * i) / 2) =~= decode_hex(data@).subrange(0, i as int));
                return Err(e);
            },
        };
        let lo: u8 = match val(data[2 * i + 1], 2 * i + 1) {
            Ok(v) => v,
            Err(e) => {
                assert(decode_hex(data@).subrange(0, (2 * i + 1) / 2) =~= decode_hex(data@).subrange(0, i as int));
                assert forall|j: int| 0 <= j < 2 * i + 1 implies (#[trigger] hex_val(data@[j])) is Some by {
                    if j < 2 * i {
                        assert(hex_valid_before(data@, 2 * i));
                    }
                }
                return Err(e);
            },
        };
        out[i] = hi * 16 + lo;
        proof {
            assert forall|j: int| 0 <= j < 2 * i + 2 implies (#[trigger] hex_val(data@[j])) is Some by {
                if j < 2 * i {
                    assert(hex_valid_before(data@, 2 * i));
                }
            }
        }
        i = i + 1;
        assert(out@ =~= decode_hex(data@).subrange(0, i as int) + old(out)@.subrange(i as int, n as int));
    }
    assert(out@ =~= decode_hex(data@));
    Ok(())
}

/// The results of a sweep over the nonces `lo` to `hi - 1`, in order.
pub open spec fn sweep(base: Seq<u64>, m: Seq<Seq<u16>>, lo: int, hi: int) -> Seq<Seq<u8>> {
    Seq::new((hi - lo) as nat, |i: int| pow_bytes(base, m, (lo + i) as u64))
}

/// Two jobs built from the same pre-image hash and timestamp give the same result
/// for every nonce.
pub proof fn lemma_calculate_deterministic(
    s1: State,
    s2: State,
    pre_pow_hash: Seq<u8>,
    timestamp: u64,
    nonce: u64,
)
    requires
        job_matrix(pre_pow_hash) == Some(s1.matrix()),
        job_matrix(pre_pow_hash) == Some(s2.matrix()),
        s1.base() == pow_base_lanes(le_bytes_to_words(pre_pow_hash), timestamp),
        s2.base() == pow_base_lanes(le_bytes_to_words(pre_pow_hash), timestamp),
    ensures
        pow_bytes(s1.base(), s1.matrix(), nonce) == pow_bytes(s2.base(), s2.matrix(), nonce),
{
}

/// Splitting a range of nonces between workers changes nothing: the sweep over
/// `lo..hi` is the sweep over `lo..mid` followed by the sweep over `mid..hi`.
pub proof fn lemma_sweep_split(base: Seq<u64>, m: Seq<Seq<u16>>, lo: int, mid: int, hi: int)
    requires
        0 <= lo <= mid <= hi <= u64::MAX as int + 1,
    ensures
        sweep(base, m, lo, hi) == sweep(base, m, lo, mid) + sweep(base, m, mid, hi),
{
    assert(sweep(base, m, lo, hi) =~= sweep(base, m, lo, mid) + sweep(base, m, mid, hi));
}

} // verus!
