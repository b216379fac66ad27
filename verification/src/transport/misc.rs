//! Counters of a connection: the stream ids it hands out, and a count
//! that goes down.

use vstd::arithmetic::div_mod::{lemma_add_mod_noop, lemma_mod_equivalence, lemma_small_mod};
use vstd::prelude::*;

verus! {

/// Hands out stream ids two apart, so that each side of a connection keeps
/// to its own parity. It is one counter: it cannot be copied, and the
/// tasks of a connection that take ids from it share it behind a lock (the
/// application's mutex), so that no two of them get the same id.
#[derive(Debug)]
pub struct StreamID {
    inner: u32,
}

impl View for StreamID {
    type V = u32;

    closed spec fn view(&self) -> u32 {
        self.inner
    }
}

/// The id after `v`: two more, wrapping around past `u32::MAX`.
pub open spec fn next_id(v: u32) -> u32 {
    if v as int + 2 > u32::MAX {
        (v as int + 2 - 0x1_0000_0000) as u32
    } else {
        (v + 2) as u32
    }
}

/// The ids handed out one after the other keep the parity of the first:
/// a client, starting at 1, uses odd ids; a server, starting at 2, even.
pub proof fn lemma_next_keeps_parity(v: u32)
    ensures
        next_id(v) % 2 == v % 2,
{
}

/// The id that a counter started at `v` hands out at its call number `k`
/// (counted from zero): `v` moved on `k` times.
pub open spec fn nth_id(v: u32, k: nat) -> u32
    decreases k,
{
    if k == 0 {
        v
    } else {
        next_id(nth_id(v, (k - 1) as nat))
    }
}

/// The ids come in sequence: a counter started at `v` hands out at its
/// call number `k` the id `v + 2k`, wrapping around past `u32::MAX` (what
/// `v.wrapping_add(2 * k)` gives), and every id keeps the parity of `v`.
pub proof fn lemma_ids_in_sequence(v: u32, k: nat)
    ensures
        nth_id(v, k) == (v + 2 * k) % 0x1_0000_0000,
        nth_id(v, k) % 2 == v % 2,
    decreases k,
{
    if k > 0 {
        lemma_ids_in_sequence(v, (k - 1) as nat);
        let x = nth_id(v, (k - 1) as nat);
        let a = v + 2 * (k - 1);
        assert(x == a % 0x1_0000_0000);
        assert(next_id(x) == (x + 2) % 0x1_0000_0000);
        assert((a % 0x1_0000_0000 + 2) % 0x1_0000_0000 == (a + 2) % 0x1_0000_0000) by {
            lemma_add_mod_noop(a, 2, 0x1_0000_0000);
            lemma_small_mod(2, 0x1_0000_0000);
        }
        lemma_next_keeps_parity(x);
    }
}

/// No id comes twice before the ids wrap around: the ids handed out at two
/// different call numbers below 2^31 differ.
pub proof fn lemma_ids_distinct(v: u32, i: nat, j: nat)
    requires
        i < j < 0x8000_0000,
    ensures
        nth_id(v, i) != nth_id(v, j),
{
    lemma_ids_in_sequence(v, i);
    lemma_ids_in_sequence(v, j);
    let a = v + 2 * i;
    let b = v + 2 * j;
    if a % 0x1_0000_0000 == b % 0x1_0000_0000 {
        lemma_mod_equivalence(b, a, 0x1_0000_0000);
        assert(0 < b - a < 0x1_0000_0000);
        lemma_small_mod((b - a) as nat, 0x1_0000_0000);
    }
}

impl StreamID {
    /// Hands out `value` first.
    pub fn new(value: u32) -> (r: StreamID)
        ensures
            r@ == value,
    {
        StreamID { inner: value }
    }

    /// Hands out the current id and moves on to the next.
    pub fn next(&mut self) -> (r: u32)
        ensures
            r == old(self)@,
            final(self)@ == next_id(old(self)@),
    {
        let current = self.inner;
        self.inner = if current > u32::MAX - 2 {
            current - (u32::MAX - 1)
        } else {
            current + 2
        };
        current
    }
}

/// A count that goes down one at a time. It is one count: it cannot be
/// copied, and tasks that count it down share it behind a lock.
#[derive(Debug)]
pub struct Counter {
    inner: i64,
}

impl View for Counter {
    type V = i64;

    closed spec fn view(&self) -> i64 {
        self.inner
    }
}

/// The count after `v`: one less, wrapping around below `i64::MIN`.
pub open spec fn count_after(v: i64) -> i64 {
    if v == i64::MIN {
        i64::MAX
    } else {
        (v - 1) as i64
    }
}

impl Counter {
    /// A count that starts at `value`.
    pub fn new(value: i64) -> (r: Counter)
        ensures
            r@ == value,
    {
        Counter { inner: value }
    }

    /// Counts one down and gives the new count.
    pub fn count_down(&mut self) -> (r: i64)
        ensures
            final(self)@ == count_after(old(self)@),
            r == final(self)@,
    {
        self.inner = if self.inner == i64::MIN {
            i64::MAX
        } else {
            self.inner - 1
        };
        self.inner
    }
}

} // verus!
