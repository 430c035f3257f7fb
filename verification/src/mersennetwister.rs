use vstd::prelude::*;

use crate::algorithm::RandomAlgorithm;
use crate::values::ValidRandomRange;

verus! {

// Coefficients of the 32-bit Mersenne Twister:
// w = 32 | n = 624        | m = 397 | r = 31         | a = 0x9908B0DF
// u = 11 | d = 0xFFFFFFFF | s = 7   | b = 0x9D2C5680 |
// t = 15 | c = 0xEFC60000 | l = 18  | f = 1812433253 |
/// The word written at position `i` while seeding, derived from the word at
/// position `i - 1`: `f * (prev XOR (prev >> 30)) + i`, truncated to 32 bits.
pub open spec fn mt_seed_next(prev: u32, i: u32) -> u32 {
    vstd::wrapping::u32_specs::wrapping_add(
        vstd::wrapping::u32_specs::wrapping_mul(1812433253u32, prev ^ (prev >> 30)),
        i,
    )
}

/// The first `n` words of the state seeded from `seed`: word 0 is the seed
/// itself and each later word is derived from its predecessor.
pub open spec fn mt_seed_state(seed: u32, n: nat) -> Seq<u32>
    decreases n,
{
    if n <= 1 {
        seq![seed]
    } else {
        let p = mt_seed_state(seed, (n - 1) as nat);
        p.push(mt_seed_next(p[n - 2], (n - 1) as u32))
    }
}

/// The word that the twist writes at position `i`, read from the state as
/// it stands when position `i` is reached: the top bit of word `i` joined
/// with the low 31 bits of the next word, shifted right once, perturbed by
/// the twist matrix constant when odd, and folded into the word 397 ahead.
pub open spec fn mt_twisted_at(s: Seq<u32>, i: int) -> u32 {
    let x = ((s[i] & 0x80000000) + (s[(i + 1) % 624] & 0x7FFFFFFF)) as u32;
    let y0 = x >> 1;
    let y = if x % 2 != 0 {
        y0 ^ 0x9908B0DF
    } else {
        y0
    };
    s[(i + 397) % 624] ^ y
}

/// The state after the twist has rewritten positions `0` to `k - 1` in
/// order, each rewrite reading the partially rewritten state.
pub open spec fn mt_twist_upto(s: Seq<u32>, k: nat) -> Seq<u32>
    decreases k,
{
    if k == 0 {
        s
    } else {
        let p = mt_twist_upto(s, (k - 1) as nat);
        p.update(k - 1, mt_twisted_at(p, k - 1))
    }
}

/// The state after one whole twist.
pub open spec fn mt_twist(s: Seq<u32>) -> Seq<u32> {
    mt_twist_upto(s, 624)
}

/// The tempering applied to a state word before range reduction.
pub open spec fn mt_temper(w: u32) -> u32 {
    let x1 = w ^ ((w >> 11) & 0xFFFFFFFF);
    let x2 = x1 ^ ((x1 << 7) & 0x9D2C5680);
    let x3 = x2 ^ ((x2 << 15) & 0xEFC60000);
    x3 ^ (x3 >> 1)
}

/// The twist keeps the state length.
pub proof fn lemma_mt_twist_upto_len(s: Seq<u32>, k: nat)
    requires
        k <= s.len(),
    ensures
        mt_twist_upto(s, k).len() == s.len(),
    decreases k,
{
    if k > 0 {
        lemma_mt_twist_upto_len(s, (k - 1) as nat);
    }
}

/// Seeding `n >= 1` words yields `n` words.
pub proof fn lemma_mt_seed_state_len(seed: u32, n: nat)
    requires
        n >= 1,
    ensures
        mt_seed_state(seed, n).len() == n,
    decreases n,
{
    if n > 1 {
        lemma_mt_seed_state_len(seed, (n - 1) as nat);
    }
}

/// The Mersenne Twister algorithm: 624 words of 32-bit state and a cursor.
///
/// Any seed is accepted, the zero seed included: the seeding recurrence
/// escapes zero after the first word. The cursor starts past the end of the
/// state, so the first draw forces an initial twist.
pub struct MersenneTwister {
    state: [u32; 624],
    index: u32,
}

impl MersenneTwister {
    /// The twist operation: refills all 624 state words in place and leaves
    /// the cursor untouched.
    pub fn twist(&mut self)
        ensures
            final(self).model().0 == mt_twist(old(self).model().0),
            final(self).model().1 == old(self).model().1,
    {
        let ghost s0 = self.state@;
        let mut i: usize = 0;
        while i < 624
            invariant
                i <= 624,
                s0.len() == 624,
                self.state@ == mt_twist_upto(s0, i as nat),
                self.index == old(self).index,
            decreases 624 - i,
        {
            proof {
                lemma_mt_twist_upto_len(s0, i as nat);
            }
            let si = self.state[i];
            let sj = self.state[(i + 1) % 624];
            proof {
                assert(si & 0x80000000 <= 0x80000000u32) by (bit_vector);
                assert(sj & 0x7FFFFFFF <= 0x7FFFFFFFu32) by (bit_vector);
            }
            let x = (si & 0x80000000) + (sj & 0x7FFFFFFF);
            let mut y = x >> 1;
            if x % 2 != 0 {
                y ^= 0x9908B0DF;
            }
            let w = self.state[(i + 397) % 624] ^ y;
            proof {
                assert(w == mt_twisted_at(self.state@, i as int));
            }
            self.state[i] = w;
            proof {
                assert(self.state@ == mt_twist_upto(s0, (i + 1) as nat));
            }
            i += 1;
        }
    }
}

impl RandomAlgorithm for MersenneTwister {
    type Seed = u32;

    type Number = u32;

    type Model = (Seq<u32>, int);

    open spec fn wf(&self) -> bool {
        true
    }

    closed spec fn model(&self) -> (Seq<u32>, int) {
        (self.state@, self.index as int)
    }

    open spec fn seed_ok(seed: u32) -> bool {
        true
    }

    open spec fn seed_model(seed: u32) -> (Seq<u32>, int) {
        (mt_seed_state(seed, 624), 625)
    }

    open spec fn step_model(m: (Seq<u32>, int)) -> (Seq<u32>, int) {
        if m.1 >= 624 {
            (mt_twist(m.0), 1)
        } else {
            (m.0, m.1 + 1)
        }
    }

    open spec fn raw_from(m: (Seq<u32>, int)) -> nat {
        if m.1 >= 624 {
            mt_temper(mt_twist(m.0)[0]) as nat
        } else {
            mt_temper(m.0[m.1]) as nat
        }
    }

    fn new(seed: u32) -> Result<MersenneTwister, &'static str> {
        let mut state: [u32; 624] = [0; 624];
        let index: u32 = 625;

        state[0] = seed;
        proof {
            assert(state@.subrange(0, 1) =~= mt_seed_state(seed, 1));
        }

        let mut i: u32 = 1;
        while i < 624
            invariant
                1 <= i <= 624,
                state@.len() == 624,
                state@.subrange(0, i as int) == mt_seed_state(seed, i as nat),
            decreases 624 - i,
        {
            proof {
                lemma_mt_seed_state_len(seed, i as nat);
            }
            let idx = i as usize;
            let prev = state[idx - 1];
            let tmp = 1812433253u32.wrapping_mul(prev ^ (prev >> 30)).wrapping_add(i);
            state[idx] = tmp;
            proof {
                assert(state@.subrange(0, i + 1) =~= mt_seed_state(seed, (i + 1) as nat));
            }
            i += 1;
        }

        proof {
            assert(state@.subrange(0, 624) =~= state@);
        }
        Ok(MersenneTwister { state, index })
    }

    fn randrange<R: ValidRandomRange<u32>>(&mut self, range: R) -> u32 {
        if self.index >= 624 {
            self.twist();
            self.index = 0;
        }

        let mut x = self.state[self.index as usize];
        x ^= (x >> 11) & 0xFFFFFFFF;
        x ^= (x << 7) & 0x9D2C5680;
        x ^= (x << 15) & 0xEFC60000;
        x ^= x >> 1;

        self.index = self.index + 1;

        x % (range._end() - range._start()) + range._start()
    }
}

} // verus!
