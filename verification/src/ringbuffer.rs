//! The ring buffer that holds the events.

pub mod maker;

use crate::ringbuffer::maker::Maker;
use crate::Sequence;
use vstd::arithmetic::div_mod::lemma_mod_multiples_vanish;
use vstd::arithmetic::power::pow;
use vstd::arithmetic::power2::{
    is_pow2, is_pow2_equiv, lemma2_to64, lemma2_to64_rest, lemma_pow2_adds,
    lemma_pow2_strictly_increases, pow2,
};
use vstd::bits::{lemma_u64_low_bits_mask_is_mod, low_bits_mask};
use vstd::prelude::*;

verus! {

/// The slot of a ring of `capacity` slots that the event with the given sequence lies in.
pub open spec fn slot_of(sequence: int, capacity: int) -> int {
    sequence % capacity
}

/// How many more events fit when `producer` is the last published sequence and every consumer is
/// done with the sequences up to and including `highest_read`.
pub open spec fn free_slots(producer: int, highest_read: int, capacity: int) -> int {
    capacity - (producer - highest_read)
}

/// Calls the factory once for each of `size` slots, and puts what the calls give into the slots in
/// the order of the calls.
pub fn fill<E, F: FnMut() -> E>(maker: &mut Maker<E, F>, size: usize) -> (slots: Vec<E>)
    requires
        old(maker).factory().requires(()),
    ensures
        slots@.len() == size,
        final(maker).factory() == old(maker).factory(),
        final(maker).made() == old(maker).made() + slots@,
        forall|i: int|
            0 <= i < size ==> old(maker).factory().ensures((), #[trigger] slots@[i]),
{
    let mut slots: Vec<E> = Vec::with_capacity(size);
    assert(maker.made() == old(maker).made() + slots@);
    while slots.len() < size
        invariant
            maker.factory() == old(maker).factory(),
            maker.factory().requires(()),
            slots.len() <= size,
            maker.made() == old(maker).made() + slots@,
            forall|i: int|
                0 <= i < slots.len() ==> maker.factory().ensures((), #[trigger] slots@[i]),
        decreases size - slots.len(),
    {
        let ghost before = slots@;
        let event = maker.make();
        slots.push(event);
        assert(maker.made() == old(maker).made() + before.push(event));
    }
    slots
}

/// A fixed number of slots, each with an event in it. The number is a power of two. Every
/// sequence has its slot, and a slot serves the sequences that are a multiple of the capacity
/// apart.
pub struct RingBuffer<E> {
    slots: Vec<E>,
    capacity: Sequence,
    slot_mask: Sequence,
}

impl<E> RingBuffer<E> {
    /// The number of slots is a power of two, and the two numbers beside them agree with it.
    pub closed spec fn wf(&self) -> bool {
        &&& self.slots@.len() == self.capacity
        &&& 0 < self.capacity
        &&& is_pow2(self.capacity as int)
        &&& self.slot_mask == self.capacity - 1
    }

    #[verifier::type_invariant]
    spec fn valid(&self) -> bool {
        self.wf()
    }

    /// The events, slot by slot.
    pub closed spec fn events(&self) -> Seq<E> {
        self.slots@
    }

    /// The number of slots.
    pub open spec fn size(&self) -> int {
        self.events().len() as int
    }

    /// The event that the slot of the sequence holds.
    pub open spec fn event_at(&self, sequence: int) -> E {
        self.events()[slot_of(sequence, self.size())]
    }

    /// The factory was called once for each of `size` slots, as [`fill`] does, and what its calls
    /// gave is in the slots, in the order of the calls.
    pub open spec fn filled_from<F: FnMut() -> E>(&self, size: usize, event_factory: F) -> bool {
        exists|maker: &mut Maker<E, F>, slots: Vec<E>|
            {
                &&& maker.factory() == event_factory
                &&& maker.made() == Seq::<E>::empty()
                &&& slots@ == self.events()
                &&& #[trigger] call_ensures(fill::<E, F>, (maker, size), slots)
            }
    }

    /// Makes a ring buffer of `size` slots and fills each of them from the factory.
    pub fn new<F>(size: usize, event_factory: F) -> (ring_buffer: Self) where F: FnMut() -> E
        requires
            is_pow2(size as int),
            size <= i64::MAX,
            event_factory.requires(()),
        ensures
            ring_buffer.wf(),
            ring_buffer.size() == size,
            forall|i: int|
                0 <= i < size ==> event_factory.ensures((), #[trigger] ring_buffer.events()[i]),
            ring_buffer.filled_from(size, event_factory),
    {
        let mut maker = Maker::new(event_factory);
        let slots = fill(&mut maker, size);
        proof {
            reveal(is_pow2);
        }
        RingBuffer { slots, capacity: size as Sequence, slot_mask: (size - 1) as Sequence }
    }

    /// The sequence that lay in the slot of `sequence` one round before it.
    pub fn wrap_point(&self, sequence: Sequence) -> (point: Sequence)
        requires
            i64::MIN <= sequence - self.size(),
        ensures
            point == sequence - self.size(),
    {
        proof {
            use_type_invariant(self);
        }
        sequence - self.capacity()
    }

    /// The slot of the sequence.
    pub fn slot_index(&self, sequence: Sequence) -> (index: usize)
        ensures
            index == slot_of(sequence as int, self.size()),
            index < self.size(),
    {
        proof {
            use_type_invariant(self);
            lemma_mask_is_slot(sequence, self.capacity);
            assert(self.slots@.len() == self.slots.len());
        }
        (sequence & self.slot_mask) as usize
    }

    /// How many events a producer can still publish before it would overwrite one that the
    /// slowest consumer has not read.
    pub fn available_capacity(&self, producer: Sequence, highest_read_by_consumers: Sequence) -> (free:
        i64)
        requires
            i64::MIN <= producer - self.size(),
            i64::MIN <= free_slots(
                producer as int,
                highest_read_by_consumers as int,
                self.size(),
            ) <= i64::MAX,
        ensures
            free == free_slots(producer as int, highest_read_by_consumers as int, self.size()),
    {
        let wrap_point = self.wrap_point(producer);
        highest_read_by_consumers - wrap_point
    }

    /// The event in the slot of the sequence.
    pub fn get(&self, sequence: Sequence) -> (event: &E)
        ensures
            *event == self.event_at(sequence as int),
    {
        let index = self.slot_index(sequence);
        proof {
            use_type_invariant(self);
        }
        &self.slots[index]
    }

    /// The event in the slot of the sequence, to be overwritten with another one. It takes the only
    /// handle on the buffer, so nobody reads the event meanwhile.
    pub fn get_mut(&mut self, sequence: Sequence) -> (event: &mut E)
        ensures
            *event == old(self).event_at(sequence as int),
            final(self).events() == old(self).events().update(
                slot_of(sequence as int, old(self).size()),
                *final(event),
            ),
            final(self).size() == old(self).size(),
            final(self).event_at(sequence as int) == *final(event),
    {
        let index = self.slot_index(sequence);
        proof {
            use_type_invariant(&*self);
        }
        &mut self.slots[index]
    }

    /// The number of slots.
    pub fn capacity(&self) -> (capacity: Sequence)
        ensures
            capacity == self.size(),
            0 < capacity,
            is_pow2(capacity as int),
    {
        proof {
            use_type_invariant(self);
        }
        self.capacity
    }
}

/// Taking the bits below a power of two is taking the remainder, of negative numbers as well.
proof fn lemma_mask_is_slot(sequence: Sequence, capacity: Sequence)
    requires
        0 < capacity,
        is_pow2(capacity as int),
    ensures
        (sequence & ((capacity - 1) as i64)) == slot_of(sequence as int, capacity as int),
        0 <= slot_of(sequence as int, capacity as int) < capacity,
{
    is_pow2_equiv(capacity as int);
    let k = choose|k: nat| pow(2, k) == capacity;
    lemma2_to64();
    lemma2_to64_rest();
    if k >= 63 {
        if k > 63 {
            lemma_pow2_strictly_increases(63, k);
        }
        assert(false);
    }
    let mask = (capacity - 1) as i64;
    let bits = sequence as u64;
    let low = (sequence & mask) as i64;
    assert(mask as u64 == low_bits_mask(k));
    lemma_u64_low_bits_mask_is_mod(bits, k);
    assert(low >= 0 && low as u64 == bits & (mask as u64)) by (bit_vector)
        requires
            mask >= 0,
            bits == sequence as u64,
            low == (sequence & mask),
    ;
    if sequence < 0 {
        assert(bits == sequence + 0x1_0000_0000_0000_0000) by (bit_vector)
            requires
                sequence < 0i64,
                bits == sequence as u64,
        ;
        lemma_pow2_adds(k, (64 - k) as nat);
        lemma_mod_multiples_vanish(pow2((64 - k) as nat) as int, sequence as int, capacity as int);
    }
}

} // verus!
