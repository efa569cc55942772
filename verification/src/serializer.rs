//! The line serializer: the rolling sequence counter and the two entry
//! points, sequenced (`N<seq><body>*<sum>\n`, counter advances) and
//! unsequenced (`<body>\n`, counter untouched).
//!
//! `Serializer` owns its counter and its contracts pin the counter's
//! whole behaviour. `SharedSerializer` keeps the counter in a shared
//! atomic so that every clone of a socket claims from the same sequence;
//! what number an individual claim observes then depends on every other
//! clone, so only the tie between the claimed number and the emitted line
//! is stated.

use vstd::prelude::*;

use core::sync::atomic::AtomicI32;
use core::sync::atomic::Ordering;
use std::sync::Arc;

use crate::gcode::{value_wf, GValue};
use crate::line::{sequenced_line, serialize_sequenced_at, serialize_unsequenced_value, unsequenced_line};

verus! {

/// The counter's step: one more, wrapping as a 32-bit add does.
pub open spec fn next_sequence(n: i32) -> i32 {
    if n == i32::MAX {
        i32::MIN
    } else {
        (n + 1) as i32
    }
}

/// The counter's value after `k` sequenced serializations from `start`.
pub open spec fn counter_after(start: i32, k: nat) -> i32
    decreases k,
{
    if k == 0 {
        start
    } else {
        next_sequence(counter_after(start, (k - 1) as nat))
    }
}

/// From the initial value 1, the `j`-th sequenced serialization claims
/// the number `1 + j`: the first `k` of them claim exactly the numbers 1
/// through `k`, each one once, and leave the counter at `k + 1`.
pub proof fn lemma_counter_progression(k: nat)
    requires
        k < i32::MAX,
    ensures
        counter_after(1, k) == 1 + k,
        forall|j: nat| j <= k ==> counter_after(1, j) == 1 + j,
    decreases k,
{
    if k > 0 {
        lemma_counter_progression((k - 1) as nat);
        assert forall|j: nat| j <= k implies counter_after(1, j) == 1 + j by {
            if j == k {
                assert(counter_after(1, k) == next_sequence(counter_after(1, (k - 1) as nat)));
            }
        }
    }
}

/// A line serializer with its own sequence counter, starting at 1.
#[derive(Clone, Copy, Debug)]
pub struct Serializer {
    pub sequence: i32,
}

impl Serializer {
    pub fn new() -> (r: Serializer)
        ensures
            r.sequence == 1,
    {
        Serializer { sequence: 1 }
    }

    /// Sequenced path: claims the current number, emits the full framed
    /// line for it, and advances the counter by one.
    pub fn serialize(&mut self, gcode: &GValue) -> (r: (i32, Vec<u8>))
        requires
            value_wf(*gcode),
        ensures
            r.0 == old(self).sequence,
            r.1@ == sequenced_line(*gcode, old(self).sequence),
            final(self).sequence == next_sequence(old(self).sequence),
    {
        let n = self.sequence;
        self.sequence = if n == i32::MAX {
            i32::MIN
        } else {
            n + 1
        };
        (n, serialize_sequenced_at(gcode, n))
    }

    /// Unsequenced path: the body and a newline, nothing else; the
    /// counter is untouched and the output depends on the value alone.
    pub fn serialize_unsequenced(&self, gcode: &GValue) -> (r: Vec<u8>)
        requires
            value_wf(*gcode),
        ensures
            r@ == unsequenced_line(*gcode),
    {
        serialize_unsequenced_value(gcode)
    }

    /// Sequenced path writing into a caller-supplied buffer; returns the
    /// claimed sequence number.
    pub fn serialize_into(&mut self, buffer: &mut Vec<u8>, gcode: &GValue) -> (n: i32)
        requires
            value_wf(*gcode),
        ensures
            n == old(self).sequence,
            final(buffer)@ == old(buffer)@ + sequenced_line(*gcode, old(self).sequence),
            final(self).sequence == next_sequence(old(self).sequence),
    {
        let (n, line) = self.serialize(gcode);
        crate::gcode::push_bytes(buffer, &line);
        n
    }

    /// Unsequenced path writing into a caller-supplied buffer.
    pub fn serialize_unsequenced_into(&self, buffer: &mut Vec<u8>, gcode: &GValue)
        requires
            value_wf(*gcode),
        ensures
            final(buffer)@ == old(buffer)@ + unsequenced_line(*gcode),
    {
        let line = self.serialize_unsequenced(gcode);
        crate::gcode::push_bytes(buffer, &line);
    }

    /// Stores `new_sequence` into the counter, so the next sequenced
    /// serialization claims it.
    pub fn set_sequence(&mut self, new_sequence: i32)
        ensures
            final(self).sequence == new_sequence,
    {
        self.sequence = new_sequence;
    }
}

impl Default for Serializer {
    fn default() -> (r: Serializer)
        ensures
            r.sequence == 1,
    {
        Serializer::new()
    }
}

/// A sequence counter shared by every clone: claims are atomic, so two
/// concurrent sequenced serializations observe distinct numbers.
#[derive(Clone, Debug)]
pub struct SharedSerializer {
    counter: Arc<AtomicI32>,
}

impl SharedSerializer {
    pub fn new() -> SharedSerializer {
        SharedSerializer { counter: Arc::new(AtomicI32::new(1)) }
    }

    /// Claims the next sequence number. The observed value depends on
    /// every clone of the counter, so nothing is promised of it.
    pub fn next(&self) -> i32 {
        self.counter.fetch_add(1, Ordering::SeqCst)
    }

    /// Sequenced path against the shared counter: whatever number the
    /// claim observed is exactly the number framed into the line.
    pub fn serialize(&self, gcode: &GValue) -> (r: (i32, Vec<u8>))
        requires
            value_wf(*gcode),
        ensures
            r.1@ == sequenced_line(*gcode, r.0),
    {
        let n = self.next();
        (n, serialize_sequenced_at(gcode, n))
    }

    /// Unsequenced path: no counter access at all.
    pub fn serialize_unsequenced(&self, gcode: &GValue) -> (r: Vec<u8>)
        requires
            value_wf(*gcode),
        ensures
            r@ == unsequenced_line(*gcode),
    {
        serialize_unsequenced_value(gcode)
    }

    /// Stores `new_sequence` into the shared counter. A serialization
    /// that already claimed its number is unaffected.
    pub fn set_sequence(&self, new_sequence: i32) {
        self.counter.store(new_sequence, Ordering::SeqCst);
    }
}

impl Default for SharedSerializer {
    fn default() -> (r: SharedSerializer) {
        SharedSerializer::new()
    }
}

} // verus!
