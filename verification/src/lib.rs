//! Pseudo-random number generation with a choice of deterministic algorithms.
//!
//! The crate exposes a small family of reproducible, non-cryptographic
//! generators (a Mersenne Twister and four XORShift variants) behind one
//! sampling interface, plus derived operations such as byte generation,
//! element choice, in-place shuffling and sampling without replacement.
//!
//! Every generator is a deterministic recurrence over its own state: the
//! contracts pin the successor state and the produced value exactly, so two
//! generators seeded alike provably yield the same stream of values.
//!
//! Do not use these generators for passwords or any cryptographic need.

mod algorithm;
mod mersennetwister;
mod rand;
mod values;
mod xorshift;

pub use algorithm::RandomAlgorithm;
pub use algorithm::lemma_determinism;
pub use algorithm::model_after;
pub use algorithm::raw_at;
pub use rand::Random;
pub use rand::lemma_spec_shuffle_permutes;
pub use rand::lemma_swap_seq_multiset;
pub use rand::sample_positions_of;
pub use rand::spec_shuffle;
pub use rand::strictly_increasing;
pub use rand::swap_seq;
pub use mersennetwister::MersenneTwister;
pub use mersennetwister::lemma_mt_seed_state_len;
pub use mersennetwister::lemma_mt_twist_upto_len;
pub use mersennetwister::mt_seed_next;
pub use mersennetwister::mt_seed_state;
pub use mersennetwister::mt_temper;
pub use mersennetwister::mt_twist;
pub use mersennetwister::mt_twist_upto;
pub use mersennetwister::mt_twisted_at;
pub use values::NumRange;
pub use values::lemma_byte_roundtrip;
pub use values::lemma_inclusive_normalization;
pub use values::lemma_to_inclusive_normalization;
pub use values::NumRangeFrom;
pub use values::NumRangeFull;
pub use values::NumRangeInclusive;
pub use values::NumRangeTo;
pub use values::NumRangeToInclusive;
pub use values::ValidRandomNumber;
pub use values::ValidRandomRange;
pub use xorshift::XORShift128;
pub use xorshift::XORShift128Plus;
pub use xorshift::XORShift32;
pub use xorshift::XORShift64;
pub use xorshift::xorshift128plus_mix;
pub use xorshift::xorshift128_step;
pub use xorshift::xorshift32_step;
pub use xorshift::xorshift64_step;
