//! Pseudo random numbers from a 32-bit linear feedback shift register
//! (taps 31, 21, 1 and 0).
use vstd::prelude::*;
use vstd::relations::injective_on;
use vstd::set_lib::{lemma_int_range, lemma_len_subset, lemma_map_size, set_int_range};

verus! {

/// Number of register shifts per generated byte.
pub const NOISE_BITS: u32 = 8;

/// One shift of the register: the feedback bit enters at the bottom.
pub open spec fn lfsr_step(s: u32) -> u32 {
    ((s << 1u32) | (((s >> 31u32) ^ (s >> 21u32) ^ (s >> 1u32) ^ s) & 1u32)) as u32
}

/// `n` shifts of the register.
pub open spec fn lfsr_steps(s: u32, n: nat) -> u32
    decreases n,
{
    if n == 0 {
        s
    } else {
        lfsr_step(lfsr_steps(s, (n - 1) as nat))
    }
}

/// The register after one byte has been drawn from state `s`.
pub open spec fn next_state(s: u32) -> u32 {
    lfsr_steps(s, 8)
}

/// The byte drawn from state `s`: the low eight bits of the next state.
pub open spec fn next_byte(s: u32) -> u8 {
    (next_state(s) & 0xff) as u8
}

/// The bit that one shift feeds in at the bottom of register `t`: bit 31
/// xor bit 21 xor bit 1 xor bit 0.
pub open spec fn feedback(t: u32) -> u32 {
    ((t >> 31u32) ^ (t >> 21u32) ^ (t >> 1u32) ^ t) & 1u32
}

/// Drawing a byte shifts the register left by eight: the new state is the
/// old one shifted by eight (its top byte dropping out) with the drawn byte
/// below it, and the drawn byte's bits, from the highest down, are the
/// feedback bits of the eight intermediate states. A register that is not
/// all zeros stays so.
pub proof fn lemma_draw_shifts(s: u32)
    ensures
        next_state(s) == ((s << 8u32) | (next_byte(s) as u32)),
        forall|k: int| 0 <= k < 8 ==> (next_state(s) >> ((7 - k) as u32)) & 1u32 == #[trigger] feedback(lfsr_steps(s, k as nat)),
        s != 0 ==> next_state(s) != 0,
{
    reveal_with_fuel(lfsr_steps, 9);
    let t0 = s;
    let t1 = lfsr_steps(s, 1);
    let t2 = lfsr_steps(s, 2);
    let t3 = lfsr_steps(s, 3);
    let t4 = lfsr_steps(s, 4);
    let t5 = lfsr_steps(s, 5);
    let t6 = lfsr_steps(s, 6);
    let t7 = lfsr_steps(s, 7);
    let t8 = lfsr_steps(s, 8);
    assert(t8 == ((t0 << 8u32) | (t8 & 0xffu32)) && (t8 >> 7u32) & 1u32 == ((t0 >> 31u32) ^ (t0 >> 21u32) ^ (t0
        >> 1u32) ^ t0) & 1u32 && (t8 >> 6u32) & 1u32 == ((t1 >> 31u32) ^ (t1 >> 21u32) ^ (t1 >> 1u32) ^ t1) & 1u32 && (
    t8 >> 5u32) & 1u32 == ((t2 >> 31u32) ^ (t2 >> 21u32) ^ (t2 >> 1u32) ^ t2) & 1u32 && (t8 >> 4u32) & 1u32 == ((t3
        >> 31u32) ^ (t3 >> 21u32) ^ (t3 >> 1u32) ^ t3) & 1u32 && (t8 >> 3u32) & 1u32 == ((t4 >> 31u32) ^ (t4 >> 21u32)
        ^ (t4 >> 1u32) ^ t4) & 1u32 && (t8 >> 2u32) & 1u32 == ((t5 >> 31u32) ^ (t5 >> 21u32) ^ (t5 >> 1u32) ^ t5) & 1u32
        && (t8 >> 1u32) & 1u32 == ((t6 >> 31u32) ^ (t6 >> 21u32) ^ (t6 >> 1u32) ^ t6) & 1u32 && (t8 >> 0u32) & 1u32 == ((
    t7 >> 31u32) ^ (t7 >> 21u32) ^ (t7 >> 1u32) ^ t7) & 1u32) by (bit_vector)
        requires
            t1 == ((t0 << 1u32) | (((t0 >> 31u32) ^ (t0 >> 21u32) ^ (t0 >> 1u32) ^ t0) & 1u32)),
            t2 == ((t1 << 1u32) | (((t1 >> 31u32) ^ (t1 >> 21u32) ^ (t1 >> 1u32) ^ t1) & 1u32)),
            t3 == ((t2 << 1u32) | (((t2 >> 31u32) ^ (t2 >> 21u32) ^ (t2 >> 1u32) ^ t2) & 1u32)),
            t4 == ((t3 << 1u32) | (((t3 >> 31u32) ^ (t3 >> 21u32) ^ (t3 >> 1u32) ^ t3) & 1u32)),
            t5 == ((t4 << 1u32) | (((t4 >> 31u32) ^ (t4 >> 21u32) ^ (t4 >> 1u32) ^ t4) & 1u32)),
            t6 == ((t5 << 1u32) | (((t5 >> 31u32) ^ (t5 >> 21u32) ^ (t5 >> 1u32) ^ t5) & 1u32)),
            t7 == ((t6 << 1u32) | (((t6 >> 31u32) ^ (t6 >> 21u32) ^ (t6 >> 1u32) ^ t6) & 1u32)),
            t8 == ((t7 << 1u32) | (((t7 >> 31u32) ^ (t7 >> 21u32) ^ (t7 >> 1u32) ^ t7) & 1u32)),
    ;
    assert(t8 >> 0u32 == t8) by (bit_vector);
    assert(((t8 & 0xffu32) as u8) as u32 == t8 & 0xffu32) by (bit_vector);
    if s != 0 {
        lemma_state_nonzero(s, 8);
    }
}

/// A white noise source: the state of the shift register.
#[derive(Debug)]
pub struct WhiteNoiseGenerator {
    pub lfsr: u32,
}

impl WhiteNoiseGenerator {
    /// A generator in the start-up state of the register.
    pub fn new() -> (g: WhiteNoiseGenerator)
        ensures
            g.lfsr == 1,
    {
        WhiteNoiseGenerator { lfsr: 1 }
    }

    /// Shifts the register by eight bits and returns its low byte.
    pub fn rand8(&mut self) -> (r: u8)
        ensures
            final(self).lfsr == next_state(old(self).lfsr),
            r == next_byte(old(self).lfsr),
            final(self).lfsr == ((old(self).lfsr << 8u32) | (r as u32)),
    {
        proof {
            lemma_draw_shifts(self.lfsr);
        }
        let mut lfsr: u32 = self.lfsr;
        let mut bit: u32 = 0;
        while bit < NOISE_BITS
            invariant
                bit <= NOISE_BITS,
                lfsr == lfsr_steps(old(self).lfsr, bit as nat),
            decreases NOISE_BITS - bit,
        {
            let new_data: u32 = (lfsr >> 31u32) ^ (lfsr >> 21u32) ^ (lfsr >> 1u32) ^ (lfsr >> 0u32);
            assert(lfsr >> 0u32 == lfsr) by (bit_vector);
            lfsr = (lfsr << 1u32) | (new_data & 1u32);
            bit = bit + 1;
        }
        self.lfsr = lfsr;
        (lfsr & 0xff) as u8
    }
}

/// A register that is not all zeros stays so after one shift.
pub proof fn lemma_step_nonzero(s: u32)
    requires
        s != 0,
    ensures
        lfsr_step(s) != 0,
{
    assert(s != 0 ==> ((s << 1u32) | (((s >> 31u32) ^ (s >> 21u32) ^ (s >> 1u32) ^ s) & 1u32))
        != 0) by (bit_vector);
}

/// A register that is not all zeros never becomes all zeros, so the
/// generator never gets stuck.
pub proof fn lemma_state_nonzero(s: u32, n: nat)
    requires
        s != 0,
    ensures
        lfsr_steps(s, n) != 0,
    decreases n,
{
    if n > 0 {
        lemma_state_nonzero(s, (n - 1) as nat);
        lemma_step_nonzero(lfsr_steps(s, (n - 1) as nat));
    }
}

} // verus!

verus! {

/// The register state after `n` bytes have been drawn from state `s`.
pub open spec fn state_after(s: u32, n: nat) -> u32
    decreases n,
{
    if n == 0 {
        s
    } else {
        next_state(state_after(s, (n - 1) as nat))
    }
}

/// The byte number `n` (counting from zero) drawn from state `s`.
pub open spec fn byte_at(s: u32, n: nat) -> u8 {
    next_byte(state_after(s, n))
}

} // verus!

verus! {

/// Drawing `a` bytes and then `b` more is drawing `a + b`.
pub proof fn lemma_state_after_add(s: u32, a: nat, b: nat)
    ensures
        state_after(state_after(s, a), b) == state_after(s, a + b),
    decreases b,
{
    if b > 0 {
        lemma_state_after_add(s, a, (b - 1) as nat);
    }
}

/// Among the states after 0, 1, ..., 2^32 pairs of draws, two coincide:
/// there are more of them than values of the register.
proof fn lemma_pair_states_collide(s: u32) -> (ij: (nat, nat))
    ensures
        ij.0 < ij.1 <= 0x1_0000_0000,
        state_after(s, 2 * ij.0) == state_after(s, 2 * ij.1),
{
    let f = |k: int| state_after(s, (2 * k) as nat) as int;
    let pairs = set_int_range(0, 0x1_0000_0001);
    let values = set_int_range(0, 0x1_0000_0000);
    lemma_int_range(0, 0x1_0000_0001);
    lemma_int_range(0, 0x1_0000_0000);
    if injective_on(f, pairs) {
        assert forall|v: int| pairs.map(f).contains(v) implies values.contains(v) by {
            let k = choose|k: int| pairs.contains(k) && v == f(k);
        }
        lemma_map_size(pairs, pairs.map(f), f);
        lemma_len_subset(pairs.map(f), values);
    }
    let (a, b) = choose|a: int, b: int| pairs.contains(a) && pairs.contains(b) && f(a) == f(b) && a != b;
    if a < b {
        (a as nat, b as nat)
    } else {
        (b as nat, a as nat)
    }
}

/// Once the states after `i` and `j` pairs of draws coincide, the states
/// repeat with period `j - i`: the state after `n` pairs is also the
/// state after some number of pairs below `j`.
proof fn lemma_pair_states_fold(s: u32, i: nat, j: nat, n: nat) -> (m: nat)
    requires
        i < j,
        state_after(s, 2 * i) == state_after(s, 2 * j),
    ensures
        m < j,
        state_after(s, 2 * m) == state_after(s, 2 * n),
    decreases n,
{
    if n < j {
        n
    } else {
        let k = (n - (j - i)) as nat;
        lemma_state_after_add(s, 2 * i, 2 * (n - j) as nat);
        lemma_state_after_add(s, 2 * j, 2 * (n - j) as nat);
        assert(2 * i + 2 * (n - j) as nat == 2 * k);
        assert(2 * j + 2 * (n - j) as nat == 2 * n);
        lemma_pair_states_fold(s, i, j, k)
    }
}

/// Every state that pairs of draws reach from `s` is reached within
/// fewer than 2^32 pairs.
pub proof fn lemma_pair_states_repeat(s: u32, n: nat)
    ensures
        exists|m: nat| m < 0x1_0000_0000 && #[trigger] state_after(s, 2 * m) == state_after(s, 2 * n),
{
    let (i, j) = lemma_pair_states_collide(s);
    let m = lemma_pair_states_fold(s, i, j, n);
    assert(m < 0x1_0000_0000 && state_after(s, 2 * m) == state_after(s, 2 * n));
}

} // verus!
