//! The part of a link that decides what goes on the wire: the header stamped on each
//! outgoing message.

use vstd::prelude::*;
use crate::wire::{Header, Packet, RawMessage};

verus! {

/// The sequence number that follows `last` on a link.
pub open spec fn next_sequence(last: u8) -> u8 {
    ((last + 1) % 256) as u8
}

/// Stamps outgoing messages with the link's addresses and a sequence number that goes up
/// by one, modulo 256, from each frame to the next.
pub struct Sequencer {
    system_id: u8,
    component_id: u8,
    last: u8,
}

impl Sequencer {
    pub closed spec fn system_id(&self) -> u8 {
        self.system_id
    }

    pub closed spec fn component_id(&self) -> u8 {
        self.component_id
    }

    /// Sequence number of the most recently stamped frame.
    pub closed spec fn last_sequence(&self) -> u8 {
        self.last
    }

    /// A sequencer whose first frame carries sequence number 0.
    pub fn new(system_id: u8, component_id: u8) -> (r: Sequencer)
        ensures
            r.system_id() == system_id,
            r.component_id() == component_id,
            next_sequence(r.last_sequence()) == 0,
    {
        Sequencer { system_id, component_id, last: 255 }
    }

    /// Wraps `message` in a packet with the next header of this link.
    pub fn stamp(&mut self, message: RawMessage) -> (r: Packet)
        ensures
            r.header == (Header {
                system_id: old(self).system_id(),
                component_id: old(self).component_id(),
                sequence: next_sequence(old(self).last_sequence()),
            }),
            r.message == message,
            final(self).last_sequence() == r.header.sequence,
            final(self).system_id() == old(self).system_id(),
            final(self).component_id() == old(self).component_id(),
    {
        self.last = self.last.wrapping_add(1);
        let header = Header { system_id: self.system_id, component_id: self.component_id, sequence: self.last };
        Packet { header, message }
    }
}

/// Sequence number of the `i`-th frame (from 0) of a run that starts after `last`.
pub open spec fn sequence_at(last: u8, i: int) -> u8 {
    ((last + 1 + i) % 256) as u8
}

proof fn lemma_next_sequence_at(last: u8, i: int)
    requires
        i >= 0,
    ensures
        next_sequence(sequence_at(last, i)) == sequence_at(last, i + 1),
{
    let x = last + 1 + i;
    assert(((x % 256) + 1) % 256 == (x + 1) % 256) by {
        vstd::arithmetic::div_mod::lemma_add_mod_noop(x, 1, 256);
        vstd::arithmetic::div_mod::lemma_mod_twice(1, 256);
    }
}

proof fn lemma_run_at(last: u8, run: Seq<u8>, i: int)
    requires
        0 <= i < run.len(),
        run[0] == next_sequence(last),
        forall|j: int| 0 < j < run.len() ==> #[trigger] run[j] == next_sequence(run[j - 1]),
    ensures
        run[i] == sequence_at(last, i),
    decreases i,
{
    if i > 0 {
        lemma_run_at(last, run, i - 1);
        lemma_next_sequence_at(last, i - 1);
        assert(run[i] == next_sequence(run[i - 1]));
    }
}

/// A run of frames whose sequence numbers each follow the one before (the first one
/// following `last`) counts up by one from `last + 1`, wrapping at 256.
pub proof fn lemma_sequence_run(last: u8, run: Seq<u8>)
    requires
        run.len() > 0 ==> run[0] == next_sequence(last),
        forall|i: int| 0 < i < run.len() ==> #[trigger] run[i] == next_sequence(run[i - 1]),
    ensures
        forall|i: int| 0 <= i < run.len() ==> #[trigger] run[i] == sequence_at(last, i),
{
    assert forall|i: int| 0 <= i < run.len() implies #[trigger] run[i] == sequence_at(last, i) by {
        lemma_run_at(last, run, i);
    }
}

/// Frames stamped one after another, starting from a fresh sequencer, carry the sequence
/// numbers 0, 1, 2, ... modulo 256. `states[i]` is the sequencer before the `i`-th call of
/// `stamp` and `states[i + 1]` the one after it; `packets[i]` is what that call returned.
pub proof fn lemma_stamped_run(states: Seq<Sequencer>, packets: Seq<Packet>)
    requires
        states.len() == packets.len() + 1,
        next_sequence(states[0].last_sequence()) == 0,
        forall|i: int| 0 <= i < packets.len() ==> #[trigger] packets[i].header.sequence == next_sequence(states[i].last_sequence()),
        forall|i: int| 0 <= i < packets.len() ==> #[trigger] states[i + 1].last_sequence() == packets[i].header.sequence,
    ensures
        forall|i: int| 0 <= i < packets.len() ==> #[trigger] packets[i].header.sequence == (i % 256) as u8,
{
    let last = states[0].last_sequence();
    let run = packets.map_values(|p: Packet| p.header.sequence);
    assert forall|i: int| 0 < i < run.len() implies #[trigger] run[i] == next_sequence(run[i - 1]) by {
        assert(states[(i - 1) + 1].last_sequence() == packets[i - 1].header.sequence);
        assert(packets[i].header.sequence == next_sequence(states[i].last_sequence()));
    }
    if run.len() > 0 {
        assert(run[0] == packets[0].header.sequence);
    }
    lemma_sequence_run(last, run);
    assert(last == 255);
    assert forall|i: int| 0 <= i < packets.len() implies #[trigger] packets[i].header.sequence == (i % 256) as u8 by {
        assert(run[i] == sequence_at(last, i));
        vstd::arithmetic::div_mod::lemma_mod_add_multiples_vanish(i, 256);
    }
}

} // verus!
