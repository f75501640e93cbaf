//! A multiplicative byte hasher whose starting state is a per-map seed.
use vstd::prelude::*;
use vstd::arithmetic::div_mod::{lemma_add_mod_noop, lemma_small_mod, lemma_fundamental_div_mod_converse_mod};

verus! {

/// The state after feeding `bytes` one by one into `state`: each byte
/// multiplies the state by 31 and adds the byte, modulo 2^64.
pub open spec fn hash_bytes(state: u64, bytes: Seq<u8>) -> u64
    decreases bytes.len(),
{
    if bytes.len() == 0 {
        state
    } else {
        ((hash_bytes(state, bytes.drop_last()) * 31 + bytes.last()) % 0x1_0000_0000_0000_0000) as u64
    }
}

/// One byte fed into a 64-bit state with wrapping arithmetic.
proof fn lemma_wrapping_step(s: u64, b: u8)
    ensures
        s.wrapping_mul(31).wrapping_add(b as u64) == ((s * 31 + b) % 0x1_0000_0000_0000_0000) as u64,
{
    let m: int = 0x1_0000_0000_0000_0000;
    let x = s.wrapping_mul(31);
    assert(x == (s * 31) % m);
    lemma_add_mod_noop(s * 31, b as int, m);
    lemma_small_mod(b as nat, m as nat);
    if x + b > u64::MAX {
        lemma_fundamental_div_mod_converse_mod(x + b, m, 1, x + b - m);
    } else {
        lemma_small_mod((x + b) as nat, m as nat);
    }
}

/// A hasher over bytes: the state starts from a seed, and each byte
/// multiplies it by 31 and adds the byte, with wrapping arithmetic.
pub struct RandomHasher {
    state: u64,
}

impl View for RandomHasher {
    type V = u64;

    closed spec fn view(&self) -> u64 {
        self.state
    }
}

impl Default for RandomHasher {
    /// A hasher whose state is zero.
    fn default() -> (r: Self)
        ensures
            r@ == 0,
    {
        RandomHasher { state: 0 }
    }
}

impl RandomHasher {
    /// The hash of what has been written so far.
    pub fn finish(&self) -> (r: u64)
        ensures
            r == self@,
    {
        self.state
    }

    /// Feeds `bytes` into the state, in order.
    pub fn write(&mut self, bytes: &[u8])
        ensures
            final(self)@ == hash_bytes(old(self)@, bytes@),
    {
        let mut state = self.state;
        let mut i: usize = 0;
        while i < bytes.len()
            invariant
                0 <= i <= bytes@.len(),
                state == hash_bytes(old(self)@, bytes@.take(i as int)),
            decreases bytes@.len() - i,
        {
            let b = bytes[i];
            proof {
                lemma_wrapping_step(state, b);
                assert(bytes@.take(i + 1).drop_last() =~= bytes@.take(i as int));
            }
            state = state.wrapping_mul(31).wrapping_add(b as u64);
            i = i + 1;
        }
        assert(bytes@.take(bytes@.len() as int) =~= bytes@);
        self.state = state;
    }
}

/// The seed from which each hasher of one map starts.
#[derive(Clone, Copy)]
pub struct RandomState {
    seed: u64,
}

impl View for RandomState {
    type V = u64;

    closed spec fn view(&self) -> u64 {
        self.seed
    }
}

impl Default for RandomState {
    /// A state with seed zero.
    fn default() -> (r: Self)
        ensures
            r@ == 0,
    {
        RandomState { seed: 0 }
    }
}

impl RandomState {
    /// A state with the given seed, which the caller draws at random.
    pub fn with_seed(seed: u64) -> (r: Self)
        ensures
            r@ == seed,
    {
        RandomState { seed }
    }

    /// A hasher that starts from this state's seed.
    pub fn build_hasher(&self) -> (r: RandomHasher)
        ensures
            r@ == self@,
    {
        RandomHasher { state: self.seed }
    }
}

} // verus!
