//! The seeded random stream of a match.
//!
//! A match draws its random choices from the ChaCha8 stream that belongs to
//! its seed, one 32-bit word at a time and in a fixed order, so that a seed
//! and an input timeline determine the whole match.

use rand::{RngCore, SeedableRng};
use rand_chacha::ChaCha8Rng;
use vstd::prelude::*;

verus! {

/// Word number `index` of the ChaCha8 stream whose generator was seeded with
/// `seed`.
pub uninterp spec fn chacha8_word(seed: u64, index: u64) -> u32;

/// Reads one word of a seeded stream.
///
/// Trusted: seeds a `rand_chacha::ChaCha8Rng` with `seed_from_u64`, moves it
/// with `set_word_pos` to word `index` of its stream and returns `next_u32`.
/// The generator is deterministic and the same on every machine, so the word
/// depends on `seed` and `index` alone.
#[verifier::external_body]
pub(crate) fn stream_word(seed: u64, index: u64) -> (word: u32)
    ensures
        word == chacha8_word(seed, index),
{
    let mut rng = ChaCha8Rng::seed_from_u64(seed);
    rng.set_word_pos(u128::from(index));
    rng.next_u32()
}

/// The value in `[lo, hi)` that the random word `word` selects; `lo` where
/// the interval is empty.
pub open spec fn pick(word: u32, lo: int, hi: int) -> int {
    if hi <= lo {
        lo
    } else {
        lo + (word * (hi - lo)) / 0x1_0000_0000
    }
}

/// A word selects a value inside the interval.
pub proof fn lemma_pick_in_range(word: u32, lo: int, hi: int)
    requires
        lo < hi,
    ensures
        lo <= pick(word, lo, hi) < hi,
{
    let span = hi - lo;
    assert(0 <= word * span < 0x1_0000_0000 * span) by (nonlinear_arith)
        requires
            0 <= word < 0x1_0000_0000,
            span > 0,
    ;
    assert(0 <= (word * span) / 0x1_0000_0000 < span) by (nonlinear_arith)
        requires
            0 <= word * span < 0x1_0000_0000 * span,
    ;
}

/// Maps a random word to a value in `[lo, hi)`, evenly; to `lo` where the
/// interval is empty.
pub fn pick_in_range(word: u32, lo: i64, hi: i64) -> (v: i64)
    ensures
        v == pick(word, lo as int, hi as int),
        lo < hi ==> lo <= v < hi,
        hi <= lo ==> v == lo,
{
    if hi <= lo {
        return lo;
    }
    proof {
        lemma_pick_in_range(word, lo as int, hi as int);
        assert(0 <= word * (hi - lo) < 0x1_0000_0000 * 0x1_0000_0000_0000_0000) by (nonlinear_arith)
            requires
                0 <= word < 0x1_0000_0000,
                0 < hi - lo < 0x1_0000_0000_0000_0000,
        ;
    }
    let span: i128 = hi as i128 - lo as i128;
    let offset: i128 = (word as i128 * span) / 0x1_0000_0000;
    (lo as i128 + offset) as i64
}

/// Position in the random stream of one seed.
#[derive(Debug, Clone, Copy, PartialEq, Eq, Structural)]
pub struct MatchRng {
    /// The seed of the stream.
    pub seed: u64,
    /// How many words have been drawn.
    pub drawn: u64,
}

impl MatchRng {
    /// The word that the next draw returns.
    pub open spec fn upcoming(self) -> u32 {
        chacha8_word(self.seed, self.drawn)
    }

    /// The stream after `n` more draws.
    pub open spec fn advanced(self, n: int) -> MatchRng {
        MatchRng { seed: self.seed, drawn: ((self.drawn + n) % 0x1_0000_0000_0000_0000) as u64 }
    }

    /// The start of the stream of `seed`.
    pub fn new(seed: u64) -> (rng: MatchRng)
        ensures
            rng == (MatchRng { seed, drawn: 0 }),
    {
        MatchRng { seed, drawn: 0 }
    }

    /// Draws the next word of the stream.
    pub fn next_word(&mut self) -> (word: u32)
        ensures
            word == old(self).upcoming(),
            *final(self) == old(self).advanced(1),
    {
        let word = stream_word(self.seed, self.drawn);
        self.drawn = self.drawn.wrapping_add(1);
        word
    }

    /// Draws a value in `[lo, hi)`; `lo` where the interval is empty. One
    /// word is drawn either way.
    pub fn gen_range(&mut self, lo: i64, hi: i64) -> (v: i64)
        ensures
            v == pick(old(self).upcoming(), lo as int, hi as int),
            *final(self) == old(self).advanced(1),
            lo < hi ==> lo <= v < hi,
            hi <= lo ==> v == lo,
    {
        let word = self.next_word();
        pick_in_range(word, lo, hi)
    }
}

} // verus!
