//! Deterministic bit-mixing generator, continually reseeded from an external
//! entropy source.
//!
//! The generator keeps the five 64-bit words of an Ascon permutation state.
//! Absorbing XORs one entropy word into the first state word and then applies
//! six permutation rounds; squeezing hands out the first state word and
//! immediately absorbs fresh entropy, so every output consumes one entropy
//! draw.

use rand_core::RngCore;
use vstd::prelude::*;

verus! {

/// The five words of an Ascon permutation state after six rounds.
pub uninterp spec fn permuted6(words: Seq<u64>) -> Seq<u64>;

/// The sponge state: five 64-bit words mixed by the Ascon permutation.
#[derive(Debug, Clone, Copy)]
pub struct Random {
    pub x0: u64,
    pub x1: u64,
    pub x2: u64,
    pub x3: u64,
    pub x4: u64,
}

impl Random {
    /// The state words, first word first.
    pub open spec fn words(self) -> Seq<u64> {
        seq![self.x0, self.x1, self.x2, self.x3, self.x4]
    }

    /// The state words after absorbing `entropy`: XOR into the first word,
    /// then six permutation rounds.
    pub open spec fn absorbed(self, entropy: u64) -> Seq<u64> {
        permuted6(self.words().update(0, self.x0 ^ entropy))
    }

    /// Relies on ascon::permute6: six rounds of the Ascon permutation over
    /// the five state words; the result depends on those words alone.
    #[verifier::external_body]
    fn permute(&mut self)
        ensures
            final(self).words() == permuted6(old(self).words()),
    {
        let mut state: ascon::State = [self.x0, self.x1, self.x2, self.x3, self.x4];
        ascon::permute6(&mut state);
        self.x0 = state[0];
        self.x1 = state[1];
        self.x2 = state[2];
        self.x3 = state[3];
        self.x4 = state[4];
    }

    /// Relies on rand_core::OsRng::next_u64 (RngCore): one fresh word from
    /// the operating system's entropy source. Nothing is promised of its
    /// value.
    #[verifier::external_body]
    fn entropy_word() -> u64 {
        rand_core::OsRng.next_u64()
    }

    /// A generator over the all-zero state that has absorbed one word of
    /// external entropy.
    pub fn new() -> (r: Random)
        ensures
            exists|e: u64| r.words() == Random::zeroed().absorbed(e),
    {
        let mut r = Random::zeroed_state();
        r.absorb();
        r
    }

    /// A generator over the all-zero state that has absorbed `seed`; its
    /// state, and so its first squeezed word, is a function of `seed` alone.
    pub fn from_seed(seed: u64) -> (r: Random)
        ensures
            r.words() == Random::zeroed().absorbed(seed),
    {
        let mut r = Random::zeroed_state();
        r.absorb_word(seed);
        r
    }

    /// The all-zero state.
    pub open spec fn zeroed() -> Random {
        Random { x0: 0, x1: 0, x2: 0, x3: 0, x4: 0 }
    }

    fn zeroed_state() -> (r: Random)
        ensures
            r == Random::zeroed(),
    {
        Random { x0: 0, x1: 0, x2: 0, x3: 0, x4: 0 }
    }

    /// Absorb one given entropy word into the state.
    pub fn absorb_word(&mut self, entropy: u64)
        ensures
            final(self).words() == old(self).absorbed(entropy),
    {
        self.x0 = self.x0 ^ entropy;
        proof {
            assert(self.words() =~= old(self).words().update(0, old(self).x0 ^ entropy));
        }
        self.permute();
    }

    /// Absorb one word drawn from the external entropy source.
    pub fn absorb(&mut self)
        ensures
            exists|e: u64| final(self).words() == old(self).absorbed(e),
    {
        let e = Random::entropy_word();
        self.absorb_word(e);
    }

    /// Hand out the first state word as computed from `entropy` absorbed so
    /// far, then absorb the given fresh word.
    pub fn squeeze_word(&mut self, entropy: u64) -> (num: u64)
        ensures
            num == old(self).x0,
            final(self).words() == old(self).absorbed(entropy),
    {
        let num = self.x0;
        self.absorb_word(entropy);
        num
    }

    /// Hand out the first state word, then absorb a word drawn from the
    /// external entropy source.
    pub fn squeeze(&mut self) -> (num: u64)
        ensures
            num == old(self).x0,
            exists|e: u64| final(self).words() == old(self).absorbed(e),
    {
        let num = self.x0;
        self.absorb();
        num
    }
}

} // verus!
