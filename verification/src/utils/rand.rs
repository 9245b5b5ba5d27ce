//! Deterministic MT19937 generator and the jittered latency it drives.

use vstd::prelude::*;
use vstd::wrapping::u32_specs;

verus! {

/// Number of words in the generator state.
pub const MT_N: usize = 624;

/// Offset of the word mixed into each twisted word.
pub const MT_M: usize = 397;

/// Coefficients of the twist matrix.
pub const MATRIX_A: u32 = 0x9908_b0df;

/// Most significant bit of a word.
pub const UPPER_MASK: u32 = 0x8000_0000;

/// Least significant 31 bits of a word.
pub const LOWER_MASK: u32 = 0x7fff_ffff;

/// Word `i` of the state that seeding with `seed` produces.
pub open spec fn seeded_word(seed: u32, i: nat) -> u32
    decreases i,
{
    if i == 0 {
        seed
    } else {
        let prev = seeded_word(seed, (i - 1) as nat);
        u32_specs::wrapping_add(u32_specs::wrapping_mul(1_812_433_253u32, prev ^ (prev >> 30u32)), i as u32)
    }
}

/// The state that seeding with `seed` produces.
pub open spec fn seeded_state(seed: u32) -> Seq<u32> {
    Seq::new(MT_N as nat, |i: int| seeded_word(seed, i as nat))
}

/// The new value of word `i` when the twist reaches it in state `s`.
pub open spec fn twisted_word(s: Seq<u32>, i: int) -> u32 {
    let x = (s[i] & UPPER_MASK) | (s[(i + 1) % (MT_N as int)] & LOWER_MASK);
    let xa = if x & 1u32 != 0 {
        (x >> 1u32) ^ MATRIX_A
    } else {
        x >> 1u32
    };
    s[(i + MT_M as int) % (MT_N as int)] ^ xa
}

/// The state after the twist has rewritten words `0..k` of `s` in order,
/// each one from the state as it stands when the twist reaches it.
pub open spec fn twist_prefix(s: Seq<u32>, k: nat) -> Seq<u32>
    decreases k,
{
    if k == 0 {
        s
    } else {
        let t = twist_prefix(s, (k - 1) as nat);
        t.update(k - 1, twisted_word(t, k - 1))
    }
}

/// The state after a full twist of `s`.
pub open spec fn twisted(s: Seq<u32>) -> Seq<u32> {
    twist_prefix(s, MT_N as nat)
}

/// The output tempering of word `y`.
pub open spec fn temper(y: u32) -> u32 {
    let y1 = y ^ (y >> 11u32);
    let y2 = y1 ^ ((y1 << 7u32) & 0x9d2c_5680u32);
    let y3 = y2 ^ ((y2 << 15u32) & 0xefc6_0000u32);
    y3 ^ (y3 >> 18u32)
}

proof fn lemma_twist_prefix_len(s: Seq<u32>, k: nat)
    requires
        k <= s.len(),
    ensures
        twist_prefix(s, k).len() == s.len(),
    decreases k,
{
    if k > 0 {
        lemma_twist_prefix_len(s, (k - 1) as nat);
    }
}

/// Deterministic MT19937 generator used for repeatable jitter.
pub struct MersenneTwister {
    state: Vec<u32>,
    index: usize,
}

impl View for MersenneTwister {
    type V = (Seq<u32>, nat);

    closed spec fn view(&self) -> (Seq<u32>, nat) {
        (self.state@, self.index as nat)
    }
}

/// The state and position from which the next output is drawn: a fresh
/// twist when the current batch is used up.
pub open spec fn batch_of(v: (Seq<u32>, nat)) -> (Seq<u32>, nat) {
    if v.1 >= MT_N {
        (twisted(v.0), 0)
    } else {
        v
    }
}

/// The next output of a generator in state `v`.
pub open spec fn next_output(v: (Seq<u32>, nat)) -> u32 {
    let (s, i) = batch_of(v);
    temper(s[i as int])
}

/// The generator state after drawing one output from state `v`.
pub open spec fn after_output(v: (Seq<u32>, nat)) -> (Seq<u32>, nat) {
    let (s, i) = batch_of(v);
    (s, i + 1)
}

impl MersenneTwister {
    /// The generator's state is a full batch and its position lies within it.
    pub closed spec fn valid(&self) -> bool {
        self.state@.len() == MT_N && self.index <= MT_N
    }

    /// Seeds a generator with the standard MT19937 initialization.
    pub fn new(seed: u32) -> (g: Self)
        ensures
            g@ == (seeded_state(seed), MT_N as nat),
            g.valid(),
    {
        let mut state: Vec<u32> = Vec::new();
        state.push(seed);
        let mut i: usize = 1;
        while i < MT_N
            invariant
                1 <= i <= MT_N,
                state@.len() == i,
                forall|j: int| 0 <= j < i ==> #[trigger] state@[j] == seeded_word(seed, j as nat),
            decreases MT_N - i,
        {
            let prev = state[i - 1];
            let word = 1_812_433_253u32.wrapping_mul(prev ^ (prev >> 30u32)).wrapping_add(i as u32);
            state.push(word);
            i = i + 1;
        }
        let g = MersenneTwister { state, index: MT_N };
        g
    }

    /// Rewrites every word of the state, refreshing the batch.
    fn twist(&mut self)
        requires
            old(self).valid(),
        ensures
            final(self)@ == (twisted(old(self)@.0), 0nat),
            final(self).valid(),
    {
        let ghost s0 = self.state@;
        let mut i: usize = 0;
        while i < MT_N
            invariant
                0 <= i <= MT_N,
                s0.len() == MT_N,
                self.state@ == twist_prefix(s0, i as nat),
            decreases MT_N - i,
        {
            proof {
                lemma_twist_prefix_len(s0, i as nat);
            }
            let x = (self.state[i] & UPPER_MASK) | (self.state[(i + 1) % MT_N] & LOWER_MASK);
            let mut xa = x >> 1u32;
            if x & 1u32 != 0 {
                xa = xa ^ MATRIX_A;
            }
            let word = self.state[(i + MT_M) % MT_N] ^ xa;
            self.state.set(i, word);
            i = i + 1;
        }
        self.index = 0;
        proof {
            lemma_twist_prefix_len(s0, MT_N as nat);
        }
    }

    /// Returns the next tempered 32-bit value.
    pub fn next_u32(&mut self) -> (r: u32)
        requires
            old(self).valid(),
        ensures
            final(self).valid(),
            r == next_output(old(self)@),
            final(self)@ == after_output(old(self)@),
    {
        if self.index >= MT_N {
            self.twist();
        }
        let mut y = self.state[self.index];
        self.index = self.index + 1;
        y = y ^ (y >> 11u32);
        y = y ^ ((y << 7u32) & 0x9d2c_5680u32);
        y = y ^ ((y << 15u32) & 0xefc6_0000u32);
        y ^ (y >> 18u32)
    }
}

/// The largest number of nanoseconds a `Duration` holds.
pub open spec fn max_duration_nanos() -> int {
    18_446_744_073_709_551_615int * 1_000_000_000int + 999_999_999int
}

/// The delay, in nanoseconds, that a profile with `base` and `jitter` yields
/// when the generator draws `draw`: the base plus the draw reduced modulo
/// `jitter + 1`, capped at `u64::MAX`; just the base when there is no jitter.
pub open spec fn delay_nanos(base: u128, jitter: u128, draw: u32) -> u128 {
    if jitter == 0 {
        base
    } else {
        let total = base + (draw as int) % (jitter + 1);
        if total > u64::MAX {
            u64::MAX as u128
        } else {
            total as u128
        }
    }
}

/// Latency profile with a base delay and deterministic jitter, in nanoseconds.
pub struct Latency {
    base_nanos: u128,
    jitter_nanos: u128,
    rng: MersenneTwister,
}

impl Latency {
    /// The base delay.
    pub closed spec fn base(&self) -> u128 {
        self.base_nanos
    }

    /// The jitter range.
    pub closed spec fn jitter(&self) -> u128 {
        self.jitter_nanos
    }

    /// The state of the jitter generator.
    pub closed spec fn generator(&self) -> (Seq<u32>, nat) {
        self.rng@
    }

    /// The profile is usable: durations in range and a valid generator.
    pub closed spec fn valid(&self) -> bool {
        &&& self.base_nanos <= max_duration_nanos()
        &&& self.jitter_nanos <= max_duration_nanos()
        &&& self.rng.valid()
    }

    /// Creates a profile with a fixed base delay, a jitter range, and a seed
    /// for the jitter generator.
    pub fn new(base_nanos: u128, jitter_nanos: u128, seed: u32) -> (l: Self)
        requires
            base_nanos <= max_duration_nanos(),
            jitter_nanos <= max_duration_nanos(),
        ensures
            l.valid(),
            l.base() == base_nanos,
            l.jitter() == jitter_nanos,
            l.generator() == (seeded_state(seed), MT_N as nat),
    {
        Latency { base_nanos, jitter_nanos, rng: MersenneTwister::new(seed) }
    }

    /// The default profile for upstream reader calls: 40 ms plus up to 20 ms.
    pub fn reader() -> (l: Self)
        ensures
            l.valid(),
            l.base() == 40_000_000,
            l.jitter() == 20_000_000,
            l.generator() == (seeded_state(0x5254_0001), MT_N as nat),
    {
        Self::new(40_000_000, 20_000_000, 0x5254_0001)
    }

    /// The default profile for intra-datacenter cache calls: 200 µs plus up
    /// to 100 µs.
    pub fn intra_dc() -> (l: Self)
        ensures
            l.valid(),
            l.base() == 200_000,
            l.jitter() == 100_000,
            l.generator() == (seeded_state(0x1dc0_0001), MT_N as nat),
    {
        Self::new(200_000, 100_000, 0x1dc0_0001)
    }

    /// Computes the next delay in nanoseconds: the base plus jitter drawn
    /// from the generator, capped at `u64::MAX` nanoseconds.
    pub fn next_delay(&mut self) -> (nanos: u128)
        requires
            old(self).valid(),
        ensures
            final(self).valid(),
            final(self).base() == old(self).base(),
            final(self).jitter() == old(self).jitter(),
            old(self).jitter() == 0 ==> nanos == old(self).base() && final(self).generator()
                == old(self).generator(),
            old(self).jitter() != 0 ==> {
                &&& nanos == delay_nanos(
                    old(self).base(),
                    old(self).jitter(),
                    next_output(old(self).generator()),
                )
                &&& final(self).generator() == after_output(old(self).generator())
            },
    {
        if self.jitter_nanos == 0 {
            return self.base_nanos;
        }
        let draw = self.rng.next_u32();
        let jitter = (draw as u128) % (self.jitter_nanos + 1);
        let total = self.base_nanos.saturating_add(jitter);
        if total > (u64::MAX as u128) {
            u64::MAX as u128
        } else {
            total
        }
    }
}

impl Default for Latency {
    /// A profile without delay.
    fn default() -> (l: Self)
        ensures
            l.valid(),
            l.base() == 0,
            l.jitter() == 0,
    {
        Self::new(0, 0, 0)
    }
}

/// Upstream reader calls are always slower than intra-datacenter cache
/// calls: the reader profile's least delay exceeds the cache profile's
/// greatest, whatever the generators draw.
pub proof fn lemma_reader_slower_than_intra_dc(reader_draw: u32, cache_draw: u32)
    ensures
        delay_nanos(40_000_000, 20_000_000, reader_draw) > delay_nanos(200_000, 100_000, cache_draw),
{
}

} // verus!
