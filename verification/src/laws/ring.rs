//! Laws of the ring: which events share a slot, and what a producer may overwrite.

use crate::consumer::is_slowest;
use crate::ringbuffer::{free_slots, slot_of, RingBuffer};
use crate::Sequence;
use vstd::arithmetic::div_mod::{lemma_fundamental_div_mod, lemma_mod_multiples_vanish};
use vstd::prelude::*;

verus! {

/// Two events that are less than a round apart lie in different slots.
pub proof fn slots_of_a_round_differ(a: int, b: int, capacity: int)
    requires
        0 < capacity,
        a < b < a + capacity,
    ensures
        slot_of(a, capacity) != slot_of(b, capacity),
{
    if slot_of(a, capacity) == slot_of(b, capacity) {
        lemma_fundamental_div_mod(a, capacity);
        lemma_fundamental_div_mod(b, capacity);
        let qa = a / capacity;
        let qb = b / capacity;
        assert(b - a == capacity * (qb - qa)) by (nonlinear_arith)
            requires
                a == capacity * qa + a % capacity,
                b == capacity * qb + b % capacity,
                a % capacity == b % capacity,
        ;
        assert(false) by (nonlinear_arith)
            requires
                0 < b - a < capacity,
                b - a == capacity * (qb - qa),
        ;
    }
}

/// A slot serves the same place of every round: events that are whole rounds apart share it.
pub proof fn a_slot_serves_every_round(sequence: int, rounds: int, capacity: int)
    requires
        0 < capacity,
    ensures
        slot_of(sequence + capacity * rounds, capacity) == slot_of(sequence, capacity),
{
    lemma_mod_multiples_vanish(rounds, sequence, capacity);
}

/// The free slots are exactly those that can be published to without overwriting an event which
/// is not read yet: publishing `count` more events after `producer` leaves the events after
/// `highest_read` alone if and only if no more than the free slots are asked for.
pub proof fn publishing_is_safe_exactly_within_the_free_slots(
    producer: int,
    highest_read: int,
    capacity: int,
    count: int,
)
    requires
        0 < capacity,
        highest_read < producer,
        0 < count,
    ensures
        count <= free_slots(producer, highest_read, capacity) <==> {
            forall|unread: int, published: int|
                highest_read < unread <= producer && producer < published <= producer + count
                    ==> #[trigger] slot_of(unread, capacity) != #[trigger] slot_of(
                    published,
                    capacity,
                )
        },
{
    if count <= free_slots(producer, highest_read, capacity) {
        assert forall|unread: int, published: int|
            highest_read < unread <= producer && producer < published <= producer
                + count implies #[trigger] slot_of(unread, capacity) != #[trigger] slot_of(
            published,
            capacity,
        ) by {
            slots_of_a_round_differ(unread, published, capacity);
        }
    } else if count >= capacity {
        // The slot of the last event is reached again a round later.
        a_slot_serves_every_round(producer, 1, capacity);
        assert(capacity * 1 == capacity);
        assert(slot_of(producer, capacity) == slot_of(producer + capacity, capacity));
    } else {
        let published = producer + count;
        a_slot_serves_every_round(published, -1, capacity);
        assert(capacity * -1 == -capacity);
        assert(slot_of(published - capacity, capacity) == slot_of(published, capacity));
    }
}

/// A producer that reckons with the slowest of its consumers overwrites nothing that any of them
/// has not read.
pub proof fn the_slowest_consumer_protects_all(
    reads: Seq<Sequence>,
    slowest: Sequence,
    producer: int,
    capacity: int,
    count: int,
    consumer: int,
    unread: int,
    published: int,
)
    requires
        0 < capacity,
        is_slowest(reads, slowest),
        count <= free_slots(producer, slowest as int, capacity),
        0 <= consumer < reads.len(),
        reads[consumer] < unread <= producer,
        producer < published <= producer + count,
    ensures
        slot_of(unread, capacity) != slot_of(published, capacity),
{
    slots_of_a_round_differ(unread, published, capacity);
}

/// What was written for a sequence is read for it, and the events of all other sequences less than
/// a round away are still there.
pub proof fn a_read_gives_what_was_written<E>(
    before: RingBuffer<E>,
    after: RingBuffer<E>,
    written: int,
    event: E,
    other: int,
)
    requires
        0 < before.size(),
        after.events() == before.events().update(slot_of(written, before.size()), event),
        other != written,
        -before.size() < other - written < before.size(),
    ensures
        after.event_at(written) == event,
        after.event_at(other) == before.event_at(other),
{
    let capacity = before.size();
    assert(after.size() == capacity);
    if other < written {
        slots_of_a_round_differ(other, written, capacity);
    } else {
        slots_of_a_round_differ(written, other, capacity);
    }
    assert(0 <= slot_of(written, capacity) < capacity) by (nonlinear_arith)
        requires
            0 < capacity,
            slot_of(written, capacity) == written % capacity,
    ;
    assert(0 <= slot_of(other, capacity) < capacity) by (nonlinear_arith)
        requires
            0 < capacity,
            slot_of(other, capacity) == other % capacity,
    ;
}

/// Each event has exactly one owner if `processors` processors share the work, each taking the
/// sequences that have its number as their remainder.
pub proof fn splitting_by_remainder_gives_each_event_one_owner(sequence: int, processors: int)
    requires
        0 < processors,
        0 <= sequence,
    ensures
        0 <= sequence % processors < processors,
        forall|owner: int, other: int|
            0 <= owner < processors && 0 <= other < processors && #[trigger] owns(
                owner,
                sequence,
                processors,
            ) && #[trigger] owns(other, sequence, processors) ==> owner == other,
        owns(sequence % processors, sequence, processors),
{
    assert(0 <= sequence % processors < processors) by (nonlinear_arith)
        requires
            0 < processors,
    ;
}

/// The processor with the number `id` takes the sequence.
pub open spec fn owns(id: int, sequence: int, processors: int) -> bool {
    sequence % processors == id
}

} // verus!
