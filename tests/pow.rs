use heavy_pow::hasher::{HeaderHasher, Hasher, HeavyHasher, PowHasher, HEAVY_INITIAL_STATE, POW_INITIAL_STATE};
use heavy_pow::heavy_hash::Matrix;
use heavy_pow::hex::{encode_bytes, encode_word};
use heavy_pow::pow::{decode_to_slice, FromHexError, PowError, State};
use heavy_pow::uint256::Uint256;
use heavy_pow::xoshiro::XoShiRo256PlusPlus;
use heavy_pow::{astrobwtv3_encode, bitsToTarget, MeTest, ASTROBWT_SAMPLE};

fn sample_hash() -> [u8; 32] {
    let mut b = [0u8; 32];
    for i in 0..32 {
        b[i] = (i as u8).wrapping_mul(37).wrapping_add(11);
    }
    b
}

fn words_bytes(w: [u64; 4]) -> [u8; 32] {
    let mut b = [0u8; 32];
    for i in 0..4 {
        b[8 * i..8 * i + 8].copy_from_slice(&w[i].to_le_bytes());
    }
    b
}

fn matrix_for(hash: [u8; 32]) -> Matrix {
    Matrix::generate(Uint256::from_le_bytes(hash)).expect("a full-rank matrix")
}

#[test]
fn le_bytes_round_trip() {
    let b = sample_hash();
    let u = Uint256::from_le_bytes(b);
    assert_eq!(u.to_le_bytes(), b);
}

#[test]
fn le_bytes_word_order() {
    let mut b = [0u8; 32];
    for i in 0..32 {
        b[i] = i as u8;
    }
    let u = Uint256::from_le_bytes(b);
    assert_eq!(u.0[0], 0x0706050403020100);
    assert_eq!(u.0[3], 0x1f1e1d1c1b1a1918);
    assert_eq!(Uint256::new([1, 2, 3, 4]).to_le_bytes(), words_bytes([1, 2, 3, 4]));
}

#[test]
fn compact_target_standard() {
    let t = Uint256::from_compact_target(0x1d00ffff);
    assert_eq!(t.0, [0, 0, 0, 0x00000000ffff0000]);
}

#[test]
fn compact_target_small_exponents() {
    assert_eq!(Uint256::from_compact_target(0x03123456).0, [0x123456, 0, 0, 0]);
    assert_eq!(Uint256::from_compact_target(0x02123456).0, [0x1234, 0, 0, 0]);
    assert_eq!(Uint256::from_compact_target(0x01123456).0, [0x12, 0, 0, 0]);
    assert_eq!(Uint256::from_compact_target(0x00123456).0, [0, 0, 0, 0]);
    assert_eq!(Uint256::from_compact_target(0x04123456).0, [0x12345600, 0, 0, 0]);
    assert_eq!(Uint256::from_compact_target(0x0c7fffff).0, [0, 0x7fffff00, 0, 0]);
    assert_eq!(Uint256::from_compact_target(0x0a7fffff).0, [0xff00000000000000, 0x7fff, 0, 0]);
}

#[test]
fn compact_target_sign_bit_and_overflow() {
    assert_eq!(Uint256::from_compact_target(0x04923456).0, [0, 0, 0, 0]);
    assert_eq!(Uint256::from_compact_target(0x2100ffff).0, [0, 0, 0, 0xffff000000000000]);
    assert_eq!(Uint256::from_compact_target(0x2200ffff).0, [0, 0, 0, 0xff00000000000000]);
    assert_eq!(Uint256::from_compact_target(0x2300ffff).0, [0, 0, 0, 0]);
    assert_eq!(Uint256::from_compact_target(0xff7fffff).0, [0, 0, 0, 0]);
}

#[test]
fn xoshiro_reference_stream() {
    let mut g = XoShiRo256PlusPlus::new(Uint256::new([1, 2, 3, 4]));
    assert_eq!(g.u64(), 41943041);
    assert_eq!(g.u64(), 58720359);
    assert_eq!(g.u64(), 3588806011781223);
}

#[test]
fn pow_hasher_base_lanes() {
    let h = PowHasher::new(Uint256::new([1, 2, 3, 4]), 7);
    let mut expect = POW_INITIAL_STATE;
    expect[0] ^= 1;
    expect[1] ^= 2;
    expect[2] ^= 3;
    expect[3] ^= 4;
    expect[4] ^= 7;
    assert_eq!(h.0, expect);
}

#[test]
fn pow_hasher_finalize_matches_permutation() {
    let h = PowHasher::new(Uint256::new([1, 2, 3, 4]), 1);
    let mut lanes = h.0;
    lanes[9] ^= 1;
    keccak::f1600(&mut lanes);
    let out = h.finalize_with_nonce(1);
    assert_eq!(out.0, [lanes[0], lanes[1], lanes[2], lanes[3]]);
    assert_ne!(out.0, [h.0[0], h.0[1], h.0[2], h.0[3]]);
}

#[test]
fn heavy_hasher_matches_permutation() {
    let input = Uint256::new([5, 6, 7, 8]);
    let mut lanes = HEAVY_INITIAL_STATE;
    lanes[0] ^= 5;
    lanes[1] ^= 6;
    lanes[2] ^= 7;
    lanes[3] ^= 8;
    keccak::f1600(&mut lanes);
    assert_eq!(HeavyHasher::hash(input).0, [lanes[0], lanes[1], lanes[2], lanes[3]]);
}

#[test]
fn header_hasher_matches_keyed_blake2b() {
    let mut h = HeaderHasher::new();
    h.write(b"block ");
    h.update(b"header");
    let got = h.finalize();
    let expect = blake2b_simd::Params::new()
        .hash_length(32)
        .key(b"BlockHash")
        .hash(b"block header");
    let mut b = [0u8; 32];
    b.copy_from_slice(expect.as_bytes());
    assert_eq!(got, Uint256::from_le_bytes(b));
}

#[test]
fn header_hasher_write_order_matters() {
    let mut a = HeaderHasher::new();
    a.write(b"ab");
    a.write(b"cd");
    let mut b = HeaderHasher::new();
    b.write(b"cd");
    b.write(b"ab");
    assert_ne!(a.finalize(), b.finalize());
}

#[test]
fn header_hasher_differs_from_unkeyed_digest() {
    let mut h = HeaderHasher::new();
    h.write(b"some header bytes");
    let keyed = h.finalize();
    let plain = blake2b_simd::Params::new().hash_length(32).hash(b"some header bytes");
    let mut b = [0u8; 32];
    b.copy_from_slice(plain.as_bytes());
    assert_ne!(keyed, Uint256::from_le_bytes(b));
}

#[test]
fn matrix_generation_is_reproducible() {
    let a = matrix_for(sample_hash());
    let b = matrix_for(sample_hash());
    assert_eq!(format!("{:?}", a), format!("{:?}", b));
    let c = matrix_for(words_bytes([1, 2, 3, 4]));
    assert_ne!(format!("{:?}", a), format!("{:?}", c));
}

#[test]
fn matrix_cells_follow_stream() {
    let m = matrix_for(words_bytes([1, 2, 3, 4]));
    let mut g = XoShiRo256PlusPlus::new(Uint256::new([1, 2, 3, 4]));
    let w0 = g.u64();
    for j in 0..16 {
        assert_eq!(m.cell(0, j) as u64, (w0 >> (4 * j)) & 0xf);
    }
    assert_eq!(m.compute_rank(), 64);
}

#[test]
fn heavy_hash_matches_direct_computation() {
    let m = matrix_for(sample_hash());
    let input = Uint256::from_le_bytes(sample_hash());
    let bytes = input.to_le_bytes();
    let mut digits = [0u16; 64];
    for j in 0..64 {
        digits[j] = if j % 2 == 0 { (bytes[j / 2] >> 4) as u16 } else { (bytes[j / 2] & 0xf) as u16 };
    }
    let mut product = [0u8; 32];
    for i in 0..32 {
        let mut s1 = 0u16;
        let mut s2 = 0u16;
        for j in 0..64 {
            s1 += m.cell(2 * i, j) * digits[j];
            s2 += m.cell(2 * i + 1, j) * digits[j];
        }
        product[i] = (((s1 >> 10) << 4) as u8 | (s2 >> 10) as u8) ^ bytes[i];
    }
    let expect = HeavyHasher::hash(Uint256::from_le_bytes(product));
    assert_eq!(m.heavy_hash(input), expect);
}

#[test]
fn job_rejects_wrong_hash_length() {
    assert_eq!(State::new(1, &[0u8; 31], 1).err(), Some(PowError::LengthMismatch));
    assert_eq!(State::new(1, &[0u8; 33], 1).err(), Some(PowError::LengthMismatch));
    assert_eq!(State::new(1, &[], 1).err(), Some(PowError::LengthMismatch));
    assert!(State::new(1, &sample_hash(), 1).is_ok());
}

#[test]
fn job_with_zero_hash_finds_no_matrix() {
    assert_eq!(State::new(1, &[0u8; 32], 1).err(), Some(PowError::MatrixGenerationExhausted));
}

#[test]
fn job_keeps_id_and_base() {
    let s = State::new(9, &words_bytes([1, 2, 3, 4]), 1).unwrap();
    assert_eq!(s.id, 9);
    assert_eq!(s.nonce, 0);
    assert_eq!(s.hasher.0, PowHasher::new(Uint256::new([1, 2, 3, 4]), 1).0);
}

#[test]
fn calculate_is_deterministic() {
    let a = State::new(1, &words_bytes([1, 2, 3, 4]), 1).unwrap();
    let b = State::new(2, &words_bytes([1, 2, 3, 4]), 1).unwrap();
    let r = a.calculate(1);
    assert_eq!(r, a.calculate(1));
    assert_eq!(r, b.calculate(1));
    assert_eq!(a.calculate_pow(1), b.calculate_pow(1));
}

#[test]
fn calculate_follows_pipeline() {
    let s = State::new(1, &sample_hash(), 1234).unwrap();
    let first = s.pre_bwt_hash(42);
    let expect_first = PowHasher::new(Uint256::from_le_bytes(sample_hash()), 1234)
        .finalize_with_nonce(42)
        .to_le_bytes();
    assert_eq!(first, expect_first);
    let bwt = spectrex::astrobwtv3::astrobwtv3_hash(&first);
    let mut le = s.matrix.heavy_hash(Uint256::from_le_bytes(bwt)).to_le_bytes();
    le.reverse();
    assert_eq!(s.finish_pow(bwt), le);
    assert_eq!(s.calculate(42), le);
    let hex: String = le.iter().map(|x| format!("{:02x}", x)).collect();
    assert_eq!(s.calculate_pow(42), hex);
}

#[test]
fn adjacent_nonces_differ() {
    let s = State::new(1, &sample_hash(), 99).unwrap();
    let results: Vec<[u8; 32]> = (0..16u64).map(|n| s.calculate(n)).collect();
    for i in 0..results.len() {
        for j in i + 1..results.len() {
            assert_ne!(results[i], results[j]);
        }
    }
}

#[test]
fn split_sweep_equals_full_sweep() {
    let s = State::new(1, &sample_hash(), 5).unwrap();
    let full: Vec<[u8; 32]> = (100..112u64).map(|n| s.calculate(n)).collect();
    let w1 = s.clone();
    let w2 = s.clone();
    let mut parts: Vec<[u8; 32]> = (100..104u64).map(|n| w1.calculate(n)).collect();
    parts.extend((104..112u64).map(|n| w2.calculate(n)));
    assert_eq!(full, parts);
}

#[test]
fn decode_rejects_odd_length() {
    let mut out = [7u8; 2];
    assert_eq!(decode_to_slice(b"abc", &mut out), Err(FromHexError::OddLength));
    assert_eq!(out, [7, 7]);
}

#[test]
fn decode_rejects_wrong_total_length() {
    let mut out = [7u8; 2];
    assert_eq!(decode_to_slice(b"abcdef", &mut out), Err(FromHexError::InvalidStringLength));
    assert_eq!(out, [7, 7]);
}

#[test]
fn decode_reports_bad_character() {
    let mut out = [7u8; 3];
    assert_eq!(
        decode_to_slice(b"0aZ0ff", &mut out),
        Err(FromHexError::InvalidHexCharacter { c: 'Z', index: 2 })
    );
    assert_eq!(out, [0x0a, 7, 7]);
    let mut out = [0u8; 1];
    assert_eq!(
        decode_to_slice(b"0g", &mut out),
        Err(FromHexError::InvalidHexCharacter { c: 'g', index: 1 })
    );
}

#[test]
fn decode_accepts_both_cases() {
    let mut out = [0u8; 4];
    assert_eq!(decode_to_slice(b"00aBFf19", &mut out), Ok(()));
    assert_eq!(out, [0x00, 0xab, 0xff, 0x19]);
}

#[test]
fn encode_bytes_lowercase() {
    assert_eq!(encode_bytes(&[0x00, 0xab, 0xff, 0x10]), "00abff10");
    assert_eq!(encode_bytes(&[]), "");
}

#[test]
fn encode_word_min_two_digits() {
    assert_eq!(encode_word(0), "00");
    assert_eq!(encode_word(5), "05");
    assert_eq!(encode_word(0x1f), "1f");
    assert_eq!(encode_word(0x123), "123");
    assert_eq!(encode_word(u64::MAX), "ffffffffffffffff");
}

#[test]
fn bits_to_target_formats_fixed_digest() {
    let d = PowHasher::new(Uint256::new([1, 2, 3, 4]), 1).finalize_with_nonce(1);
    let expect: String = d.0.iter().map(|x| format!("{:02x}", x)).collect();
    assert_eq!(bitsToTarget(0x1d00ffff), expect);
    assert_eq!(bitsToTarget(0), expect);
}

#[test]
fn astrobwtv3_encode_hashes_sample() {
    let h = spectrex::astrobwtv3::astrobwtv3_hash(&ASTROBWT_SAMPLE);
    let expect: String = h.iter().map(|x| format!("{:02x}", x)).collect();
    assert_eq!(astrobwtv3_encode("ignored"), expect);
    assert_ne!(expect, encode_bytes(&ASTROBWT_SAMPLE));
}

#[test]
fn me_test_adds_ten_thousand_times() {
    let m = MeTest::new(3);
    assert_eq!(m.0, 3);
    assert_eq!(m.add(3, 4), 70000);
    assert_eq!(m.add(-2, 1), -10000);
}

fn encode_compact(v: &Uint256) -> u32 {
    let b = v.to_le_bytes();
    let mut size = 32usize;
    while size > 0 && b[size - 1] == 0 {
        size -= 1;
    }
    let mut mant: u32 = 0;
    for k in 0..3 {
        mant <<= 8;
        if size >= k + 1 {
            mant |= b[size - 1 - k] as u32;
        }
    }
    if mant & 0x0080_0000 != 0 {
        mant >>= 8;
        size += 1;
    }
    mant | ((size as u32) << 24)
}

#[test]
fn compact_decode_encode_round_trip() {
    for bits in [0x1d00ffffu32, 0x1b0404cb, 0x03123456, 0x207fffff, 0x05009234, 0x2100ffff] {
        let v = Uint256::from_compact_target(bits);
        let again = Uint256::from_compact_target(encode_compact(&v));
        assert_eq!(again, v);
    }
    assert_eq!(encode_compact(&Uint256::from_compact_target(0x1d00ffff)), 0x1d00ffff);
}
