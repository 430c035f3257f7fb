use vstd::prelude::*;

use crate::algorithm::RandomAlgorithm;
use crate::values::ValidRandomRange;

verus! {

/// One step of the 32-bit XORShift recurrence: three shift-xor stages with
/// shift amounts 13 left, 17 right and 5 left.
pub open spec fn xorshift32_step(x: u32) -> u32 {
    let a = x ^ (x << 13);
    let b = a ^ (a >> 17);
    b ^ (b << 5)
}

/// One step of the 64-bit XORShift recurrence: three shift-xor stages with
/// shift amounts 13 left, 7 right and 17 left.
pub open spec fn xorshift64_step(x: u64) -> u64 {
    let a = x ^ (x << 13);
    let b = a ^ (a >> 7);
    b ^ (b << 17)
}

/// One step of the 128-bit XORShift recurrence: three shift-xor stages with
/// shift amounts 11 left, 8 right and 19 left.
pub open spec fn xorshift128_step(x: u128) -> u128 {
    let a = x ^ (x << 11);
    let b = a ^ (a >> 8);
    b ^ (b << 19)
}

/// The scramble of the first XORShift128Plus register against the second:
/// the new value stored into the second register slot.
pub open spec fn xorshift128plus_mix(x: u64, y: u64) -> u64 {
    let a = x ^ (x << 23);
    let b = a ^ (a >> 18);
    b ^ (y ^ (y >> 5))
}

/// The 32-bit XORShift algorithm: a single shift-xor register.
///
/// An all-zero register is a fixed point of the recurrence, so construction
/// rejects the zero seed.
pub struct XORShift32 {
    state: u32,
}

impl RandomAlgorithm for XORShift32 {
    type Seed = u32;

    type Number = u32;

    type Model = u32;

    open spec fn wf(&self) -> bool {
        true
    }

    closed spec fn model(&self) -> u32 {
        self.state
    }

    open spec fn seed_ok(seed: u32) -> bool {
        seed != 0
    }

    open spec fn seed_model(seed: u32) -> u32 {
        seed
    }

    open spec fn step_model(m: u32) -> u32 {
        xorshift32_step(m)
    }

    open spec fn raw_from(m: u32) -> nat {
        xorshift32_step(m) as nat
    }

    fn new(seed: u32) -> (r: Result<XORShift32, &'static str>)
        ensures
            r is Err ==> (r->Err_0)@ == "seed must be initialized to non-zero"@,
    {
        if seed == 0 {
            return Err("seed must be initialized to non-zero");
        }
        Ok(XORShift32 { state: seed })
    }

    fn randrange<R: ValidRandomRange<u32>>(&mut self, range: R) -> u32 {
        let mut x = self.state;
        x ^= x << 13;
        x ^= x >> 17;
        x ^= x << 5;
        self.state = x;
        x % (range._end() - range._start()) + range._start()
    }
}

/// The 64-bit XORShift algorithm: a single shift-xor register.
///
/// An all-zero register is a fixed point of the recurrence, so construction
/// rejects the zero seed.
pub struct XORShift64 {
    state: u64,
}

impl RandomAlgorithm for XORShift64 {
    type Seed = u64;

    type Number = u64;

    type Model = u64;

    open spec fn wf(&self) -> bool {
        true
    }

    closed spec fn model(&self) -> u64 {
        self.state
    }

    open spec fn seed_ok(seed: u64) -> bool {
        seed != 0
    }

    open spec fn seed_model(seed: u64) -> u64 {
        seed
    }

    open spec fn step_model(m: u64) -> u64 {
        xorshift64_step(m)
    }

    open spec fn raw_from(m: u64) -> nat {
        xorshift64_step(m) as nat
    }

    fn new(seed: u64) -> (r: Result<XORShift64, &'static str>)
        ensures
            r is Err ==> (r->Err_0)@ == "seed must be initialized to non-zero"@,
    {
        if seed == 0 {
            return Err("seed must be initialized to non-zero");
        }
        Ok(XORShift64 { state: seed })
    }

    fn randrange<R: ValidRandomRange<u64>>(&mut self, range: R) -> u64 {
        let mut x = self.state;
        x ^= x << 13;
        x ^= x >> 7;
        x ^= x << 17;
        self.state = x;
        x % (range._end() - range._start()) + range._start()
    }
}

/// The 128-bit XORShift algorithm: a single shift-xor register.
///
/// An all-zero register is a fixed point of the recurrence, so construction
/// rejects the zero seed.
pub struct XORShift128 {
    state: u128,
}

impl RandomAlgorithm for XORShift128 {
    type Seed = u128;

    type Number = u128;

    type Model = u128;

    open spec fn wf(&self) -> bool {
        true
    }

    closed spec fn model(&self) -> u128 {
        self.state
    }

    open spec fn seed_ok(seed: u128) -> bool {
        seed != 0
    }

    open spec fn seed_model(seed: u128) -> u128 {
        seed
    }

    open spec fn step_model(m: u128) -> u128 {
        xorshift128_step(m)
    }

    open spec fn raw_from(m: u128) -> nat {
        xorshift128_step(m) as nat
    }

    fn new(seed: u128) -> (r: Result<XORShift128, &'static str>)
        ensures
            r is Err ==> (r->Err_0)@ == "seed must be initialized to non-zero"@,
    {
        if seed == 0 {
            return Err("seed must be initialized to non-zero");
        }
        Ok(XORShift128 { state: seed })
    }

    fn randrange<R: ValidRandomRange<u128>>(&mut self, range: R) -> u128 {
        let mut x = self.state;
        x ^= x << 11;
        x ^= x >> 8;
        x ^= x << 19;
        self.state = x;
        x % (range._end() - range._start()) + range._start()
    }
}

/// The XORShift128Plus algorithm: two 64-bit registers.
///
/// Each draw scrambles the first register against the second, stores the
/// result into the second register slot, and returns the wrapped 64-bit sum
/// of the scrambled value and the previous second register, widened to 128
/// bits. A fully zero register pair is a fixed point, so construction
/// rejects a seed whose two halves are both zero.
pub struct XORShift128Plus {
    state: [u64; 2],
}

impl RandomAlgorithm for XORShift128Plus {
    type Seed = [u64; 2];

    type Number = u128;

    type Model = (u64, u64);

    open spec fn wf(&self) -> bool {
        true
    }

    closed spec fn model(&self) -> (u64, u64) {
        (self.state@[0], self.state@[1])
    }

    open spec fn seed_ok(seed: [u64; 2]) -> bool {
        !(seed@[0] == 0 && seed@[1] == 0)
    }

    open spec fn seed_model(seed: [u64; 2]) -> (u64, u64) {
        (seed@[0], seed@[1])
    }

    open spec fn step_model(m: (u64, u64)) -> (u64, u64) {
        (m.0, xorshift128plus_mix(m.0, m.1))
    }

    open spec fn raw_from(m: (u64, u64)) -> nat {
        ((xorshift128plus_mix(m.0, m.1) + m.1) % 0x1_0000_0000_0000_0000) as nat
    }

    fn new(seed: [u64; 2]) -> (r: Result<XORShift128Plus, &'static str>)
        ensures
            r is Err ==> (r->Err_0)@ == "at least one bit of the seed must be initialized to non-zero"@,
    {
        if seed[0] | seed[1] == 0 {
            proof {
                let s0 = seed@[0];
                let s1 = seed@[1];
                assert(s0 | s1 == 0 ==> s0 == 0 && s1 == 0) by (bit_vector);
            }
            return Err("at least one bit of the seed must be initialized to non-zero");
        }
        proof {
            let s0 = seed@[0];
            let s1 = seed@[1];
            assert(s0 == 0 && s1 == 0 ==> s0 | s1 == 0) by (bit_vector);
        }
        Ok(XORShift128Plus { state: seed })
    }

    fn randrange<R: ValidRandomRange<u128>>(&mut self, range: R) -> u128 {
        let mut x = self.state[0];
        let y = self.state[1];
        x ^= x << 23;
        x ^= x >> 18;
        x ^= y ^ (y >> 5);
        self.state[1] = x;
        let raw = x.wrapping_add(y) as u128;
        raw % (range._end() - range._start()) + range._start()
    }
}

} // verus!
