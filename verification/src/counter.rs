//! The sequence generator: a wrapping 8-bit counter that assigns each
//! outbound packet the identifier linking commands to responses. It is an
//! injectable value rather than ambient process state, so tests can supply
//! their own; the count itself lives in an atomic counter of the
//! `global_counter` crate, as a value safe to share between packet producers.

use vstd::prelude::*;

use global_counter::primitive::exact::CounterU8;

verus! {

#[verifier::external_type_specification]
#[verifier::external_body]
pub struct ExCounterU8(CounterU8);

/// The value an atomic counter currently holds.
pub uninterp spec fn counter_value(c: CounterU8) -> u8;

/// A sequence number's successor: one more, wrapping 255 back to 0.
pub open spec fn next_seq_value(v: u8) -> u8 {
    ((v + 1) % 256) as u8
}

/// Relies on global_counter's CounterU8::new: the counter starts at the
/// given value.
#[verifier::external_body]
fn counter_new(start: u8) -> (r: CounterU8)
    ensures
        counter_value(r) == start,
{
    CounterU8::new(start)
}

/// Relies on global_counter's CounterU8::inc: an atomic wrapping fetch-add
/// of one that returns the previous value.
#[verifier::external_body]
fn counter_inc(c: &mut CounterU8) -> (r: u8)
    ensures
        r == counter_value(*old(c)),
        counter_value(*final(c)) == next_seq_value(counter_value(*old(c))),
{
    c.inc()
}

/// Relies on global_counter's CounterU8::get: an atomic load of the
/// counter's value.
#[verifier::external_body]
fn counter_get(c: &CounterU8) -> (r: u8)
    ensures
        r == counter_value(*c),
{
    c.get()
}

/// Hands out the sequence numbers of outbound packets.
#[derive(Debug)]
pub struct SequenceGenerator {
    counter: CounterU8,
}

impl View for SequenceGenerator {
    type V = u8;

    /// The sequence number handed out last (0 before the first call).
    closed spec fn view(&self) -> u8 {
        counter_value(self.counter)
    }
}

impl SequenceGenerator {
    /// A fresh generator; its first call to [`Self::next`] returns 1.
    pub fn new() -> (r: SequenceGenerator)
        ensures
            r@ == 0,
    {
        SequenceGenerator { counter: counter_new(0) }
    }

    /// The sequence number handed out last, without advancing the counter.
    pub fn current(&self) -> (r: u8)
        ensures
            r == self@,
    {
        counter_get(&self.counter)
    }

    /// Increments the counter and returns the post-increment value,
    /// wrapping 255 back to 0.
    pub fn next(&mut self) -> (r: u8)
        ensures
            final(self)@ == next_seq_value(old(self)@),
            r == final(self)@,
    {
        counter_inc(&mut self.counter);
        counter_get(&self.counter)
    }
}

/// The sequence number that stands `n` constructions after a generator
/// held `start`.
pub open spec fn seq_no_after(start: u8, n: nat) -> u8 {
    ((start + n) % 256) as u8
}

/// Each construction advances the sequence number by exactly one, modulo 256.
pub proof fn lemma_seq_no_step(start: u8, n: nat)
    ensures
        seq_no_after(start, n + 1) == next_seq_value(seq_no_after(start, n)),
{
    let a = start + n;
    vstd::arithmetic::div_mod::lemma_add_mod_noop(a, 1, 256);
    assert((a % 256 + 1int % 256) % 256 == (a % 256 + 1) % 256);
}

/// Sequence numbers never repeat within any run of fewer than 256
/// constructions: the values increase modulo 256 until wraparound.
pub proof fn lemma_seq_no_distinct(start: u8, i: nat, j: nat)
    requires
        i < j,
        j - i < 256,
    ensures
        seq_no_after(start, i) != seq_no_after(start, j),
{
    let a = start + i;
    let d = (j - i) as nat;
    vstd::arithmetic::div_mod::lemma_add_mod_noop(a, d as int, 256);
    vstd::arithmetic::div_mod::lemma_small_mod(d, 256);
    assert((a % 256 + d) % 256 == (a + d) % 256);
    let r = a % 256;
    assert(0 <= r < 256);
    if r + d < 256 {
        vstd::arithmetic::div_mod::lemma_small_mod((r + d) as nat, 256);
        assert((a + d) % 256 == r + d);
    } else {
        vstd::arithmetic::div_mod::lemma_mod_sub_multiples_vanish(r + d, 256);
        assert((r + d - 256) % 256 == (r + d) % 256);
        vstd::arithmetic::div_mod::lemma_small_mod((r + d - 256) as nat, 256);
        assert((a + d) % 256 == r + d - 256);
    }
}

} // verus!
