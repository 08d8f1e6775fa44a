use vstd::prelude::*;

use crate::uint256::Uint256;

verus! {

/// `x` rotated left by `n` bits, `0 < n < 64`.
pub open spec fn rotl(x: u64, n: u64) -> u64 {
    (x << n) | (x >> (64 - n) as u64)
}

/// `x + y` modulo 2^64.
pub open spec fn wadd(x: u64, y: u64) -> u64 {
    ((x + y) % 0x1_0000_0000_0000_0000) as u64
}

/// The xoshiro256++ generator: four words of state.
#[derive(Clone, Copy, Debug)]
pub struct XoShiRo256PlusPlus {
    pub s0: u64,
    pub s1: u64,
    pub s2: u64,
    pub s3: u64,
}

/// The word that the generator hands out from state `g`.
pub open spec fn xo_output(g: XoShiRo256PlusPlus) -> u64 {
    wadd(rotl(wadd(g.s0, g.s3), 23), g.s0)
}

/// The state that follows `g`.
pub open spec fn xo_step(g: XoShiRo256PlusPlus) -> XoShiRo256PlusPlus {
    let t = g.s1 << 17u64;
    let s2 = g.s2 ^ g.s0;
    let s3 = g.s3 ^ g.s1;
    let s1 = g.s1 ^ s2;
    let s0 = g.s0 ^ s3;
    XoShiRo256PlusPlus { s0, s1, s2: s2 ^ t, s3: rotl(s3, 45) }
}

/// The state after `n` steps from `g`.
pub open spec fn xo_advance(g: XoShiRo256PlusPlus, n: nat) -> XoShiRo256PlusPlus
    decreases n,
{
    if n == 0 {
        g
    } else {
        xo_step(xo_advance(g, (n - 1) as nat))
    }
}

/// The `n`-th word (from zero) of the stream that starts at `g`.
pub open spec fn xo_nth(g: XoShiRo256PlusPlus, n: nat) -> u64 {
    xo_output(xo_advance(g, n))
}

/// The generator seeded with the four words of a hash.
pub open spec fn xo_seed(words: Seq<u64>) -> XoShiRo256PlusPlus {
    XoShiRo256PlusPlus { s0: words[0], s1: words[1], s2: words[2], s3: words[3] }
}

proof fn lemma_wrapping_add(a: u64, b: u64)
    ensures
        a.wrapping_add(b) == wadd(a, b),
{
    if a + b > u64::MAX {
        assert((a + b) % 0x1_0000_0000_0000_0000 == a + b - 0x1_0000_0000_0000_0000);
    } else {
        assert((a + b) % 0x1_0000_0000_0000_0000 == a + b);
    }
}

impl XoShiRo256PlusPlus {
    pub fn new(hash: Uint256) -> (r: Self)
        ensures
            r == xo_seed(hash.0@),
    {
        XoShiRo256PlusPlus { s0: hash.0[0], s1: hash.0[1], s2: hash.0[2], s3: hash.0[3] }
    }

    pub fn u64(&mut self) -> (r: u64)
        ensures
            r == xo_output(*old(self)),
            *final(self) == xo_step(*old(self)),
    {
        let x: u64 = self.s0.wrapping_add(self.s3);
        let rot: u64 = (x << 23u64) | (x >> 41u64);
        let res: u64 = rot.wrapping_add(self.s0);
        proof {
            lemma_wrapping_add(self.s0, self.s3);
            lemma_wrapping_add(rot, self.s0);
        }
        let t: u64 = self.s1 << 17u64;
        self.s2 = self.s2 ^ self.s0;
        self.s3 = self.s3 ^ self.s1;
        self.s1 = self.s1 ^ self.s2;
        self.s0 = self.s0 ^ self.s3;
        self.s2 = self.s2 ^ t;
        self.s3 = (self.s3 << 45u64) | (self.s3 >> 19u64);
        res
    }
}

} // verus!
