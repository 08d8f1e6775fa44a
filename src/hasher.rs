use vstd::prelude::*;

use crate::uint256::{le_bytes_to_words, Uint256};

verus! {

/// What the Keccak-f[1600] permutation makes of 25 lanes.
pub uninterp spec fn keccak_f1600_of(lanes: Seq<u64>) -> Seq<u64>;

/// What keyed BLAKE2b with the given output length makes of the given bytes.
pub uninterp spec fn blake2b_keyed_of(key: Seq<u8>, out_len: nat, data: Seq<u8>) -> Seq<u8>;

/// Relies on keccak::f1600: permutes the 25 lanes in place, a function of them alone.
#[verifier::external_body]
fn keccak_f1600(lanes: &mut [u64; 25])
    ensures
        final(lanes)@ == keccak_f1600_of(old(lanes)@),
{
    keccak::f1600(lanes)
}

/// Relies on blake2b_simd's `Params` (`hash_length`, `key`, `hash`): the keyed
/// digest of `data`, `out_len` bytes long. `hash_length` panics outside 1..=64 and
/// `key` above 64 bytes.
#[verifier::external_body]
fn blake2b_keyed(key: &[u8], out_len: usize, data: &[u8]) -> (r: Vec<u8>)
    requires
        1 <= out_len <= 64,
        key@.len() <= 64,
    ensures
        r@ == blake2b_keyed_of(key@, out_len as nat, data@),
        r@.len() == out_len,
{
    blake2b_simd::Params::new().hash_length(out_len).key(key).hash(data).as_bytes().to_vec()
}

/// The key that separates block-header digests from every other use of BLAKE2b.
pub const BLOCK_HASH_DOMAIN: [u8; 9] = [0x42, 0x6c, 0x6f, 0x63, 0x6b, 0x48, 0x61, 0x73, 0x68];

/// The lanes of cSHAKE256 keyed with "ProofOfWorkHash" after absorbing its key,
/// with the padding bits of the one block that follows already in place.
pub const POW_INITIAL_STATE: [u64; 25] = [
    1242148031264380989, 3008272977830772284, 2188519011337848018, 1992179434288343456,
    8876506674959887717, 5399642050693751366, 1745875063082670864, 8605242046444978844,
    17936695144567157056, 3343109343542796272, 1123092876221303306, 4963925045340115282,
    17037383077651887893, 16629644495023626889, 12833675776649114147, 3784524041015224902,
    1082795874807940378, 13952716920571277634, 13411128033953605860, 15060696040649351053,
    9928834659948351306, 5237849264682708699, 12825353012139217522, 6706187291358897596,
    196324915476054915,
];

/// The same for cSHAKE256 keyed with "HeavyHash".
pub const HEAVY_INITIAL_STATE: [u64; 25] = [
    4239941492252378377, 8746723911537738262, 8796936657246353646, 1272090201925444760,
    16654558671554924250, 8270816933120786537, 13907396207649043898, 6782861118970774626,
    9239690602118867528, 11582319943599406348, 17596056728278508070, 15212962468105129023,
    7812475424661425213, 3370482334374859748, 5690099369266491460, 8596393687355028144,
    570094237299545110, 9119540418498120711, 16901969272480492857, 13372017233735502424,
    14372891883993151831, 5171152063242093102, 10573107899694386186, 6096431547456407061,
    1592359455985097269,
];

/// `init` with `words` XORed into its first four lanes.
pub open spec fn absorb_words(init: Seq<u64>, words: Seq<u64>) -> Seq<u64> {
    Seq::new(init.len(), |i: int| if i < 4 { init[i] ^ words[i] } else { init[i] })
}

/// The proof-of-work base lanes for a pre-image hash and a timestamp.
pub open spec fn pow_base_lanes(pre_pow_hash: Seq<u64>, timestamp: u64) -> Seq<u64> {
    let a = absorb_words(POW_INITIAL_STATE@, pre_pow_hash);
    a.update(4, a[4] ^ timestamp)
}

/// The proof-of-work digest of a base and a nonce: the first four lanes after
/// the nonce is XORed into lane 9 and the lanes are permuted once.
pub open spec fn pow_digest(base: Seq<u64>, nonce: u64) -> Seq<u64> {
    keccak_f1600_of(base.update(9, base[9] ^ nonce)).subrange(0, 4)
}

/// The heavy-mix digest of four words.
pub open spec fn heavy_digest(words: Seq<u64>) -> Seq<u64> {
    keccak_f1600_of(absorb_words(HEAVY_INITIAL_STATE@, words)).subrange(0, 4)
}

fn first_four(lanes: &[u64; 25]) -> (r: Uint256)
    ensures
        r.0@ == lanes@.subrange(0, 4),
{
    let r = Uint256([lanes[0], lanes[1], lanes[2], lanes[3]]);
    assert(r.0@ =~= lanes@.subrange(0, 4));
    r
}

fn xor_words(lanes: &mut [u64; 25], words: &[u64; 4])
    ensures
        final(lanes)@ == absorb_words(old(lanes)@, words@),
{
    let mut i: usize = 0;
    while i < 4
        invariant
            0 <= i <= 4,
            forall|j: int| 0 <= j < i ==> lanes@[j] == old(lanes)@[j] ^ words@[j],
            forall|j: int| i <= j < 25 ==> lanes@[j] == old(lanes)@[j],
        decreases 4 - i,
    {
        lanes[i] = lanes[i] ^ words[i];
        i = i + 1;
    }
    assert(lanes@ =~= absorb_words(old(lanes)@, words@));
}

/// The proof-of-work sponge with the pre-image hash and the timestamp absorbed
/// and the nonce still missing.
#[derive(Clone, Copy)]
pub struct PowHasher(pub [u64; 25]);

impl PowHasher {
    pub fn new(pre_pow_hash: Uint256, timestamp: u64) -> (r: Self)
        ensures
            r.0@ == pow_base_lanes(pre_pow_hash.0@, timestamp),
    {
        let mut start: [u64; 25] = POW_INITIAL_STATE;
        xor_words(&mut start, &pre_pow_hash.0);
        start[4] = start[4] ^ timestamp;
        PowHasher(start)
    }

    pub fn finalize_with_nonce(self, nonce: u64) -> (r: Uint256)
        ensures
            r.0@ == pow_digest(self.0@, nonce),
    {
        let mut lanes: [u64; 25] = self.0;
        lanes[9] = lanes[9] ^ nonce;
        keccak_f1600(&mut lanes);
        first_four(&lanes)
    }
}

/// The heavy-mix sponge, used once per digest.
#[derive(Clone, Copy)]
pub struct HeavyHasher;

impl HeavyHasher {
    pub fn hash(in_hash: Uint256) -> (r: Uint256)
        ensures
            r.0@ == heavy_digest(in_hash.0@),
    {
        let mut state: [u64; 25] = HEAVY_INITIAL_STATE;
        xor_words(&mut state, &in_hash.0);
        keccak_f1600(&mut state);
        first_four(&state)
    }
}

/// The block-header digest of `data`: BLAKE2b keyed with the block-hash domain,
/// 32 bytes long.
pub open spec fn block_hash_of(data: Seq<u8>) -> Seq<u8> {
    blake2b_keyed_of(BLOCK_HASH_DOMAIN@, 32, data)
}

/// Digests block-header bytes into a pre-image hash. The bytes written so far
/// are kept and digested together by `finalize`.
#[derive(Clone)]
pub struct HeaderHasher {
    data: Vec<u8>,
}

impl View for HeaderHasher {
    type V = Seq<u8>;

    closed spec fn view(&self) -> Seq<u8> {
        self.data@
    }
}

impl HeaderHasher {
    pub fn new() -> (r: Self)
        ensures
            r@ == Seq::<u8>::empty(),
    {
        HeaderHasher { data: Vec::new() }
    }

    pub fn write(&mut self, data: &[u8])
        ensures
            final(self)@ == old(self)@ + data@,
    {
        let mut i: usize = 0;
        while i < data.len()
            invariant
                0 <= i <= data@.len(),
                self@ == old(self)@ + data@.subrange(0, i as int),
            decreases data@.len() - i,
        {
            self.data.push(data[i]);
            i = i + 1;
            assert(self@ =~= old(self)@ + data@.subrange(0, i as int));
        }
        assert(data@.subrange(0, data@.len() as int) =~= data@);
    }

    pub fn finalize(self) -> (r: Uint256)
        ensures
            r.0@ == le_bytes_to_words(block_hash_of(self@)),
    {
        let key: [u8; 9] = BLOCK_HASH_DOMAIN;
        let digest: Vec<u8> = blake2b_keyed(key.as_slice(), 32, self.data.as_slice());
        let mut bytes: [u8; 32] = [0u8; 32];
        let mut i: usize = 0;
        while i < 32
            invariant
                0 <= i <= 32,
                digest@.len() == 32,
                bytes@.len() == 32,
                forall|j: int| 0 <= j < i ==> bytes@[j] == digest@[j],
            decreases 32 - i,
        {
            bytes[i] = digest[i];
            i = i + 1;
        }
        assert(bytes@ =~= digest@);
        Uint256::from_le_bytes(bytes)
    }
}

/// Something that absorbs bytes.
pub trait Hasher {
    fn update(&mut self, data: &[u8]);
}

impl Hasher for HeaderHasher {
    fn update(&mut self, data: &[u8]) {
        self.write(data);
    }
}

} // verus!
