//! Laws of the builder: whatever it hands out for one disruptor belongs together.

use crate::builder::multi::{MPBuilder, MultiProducerParts};
use crate::builder::{Shared, Stage};
use crate::consumer::processor::Station;
use crate::monitor::next_epoch;
use crate::sequence::GatedSequence;
use crate::wait_strategies::blocking::{
    rang, rung, BlockingNotifier, BlockingWaitStrategy, BlockingWaiter, LiteBlockingNotifier,
    LiteBlockingWaitStrategy, LiteBlockingWaiter,
};
use crate::wait_strategies::record::Ring;
use crate::wait_strategies::{woken, WaitStrategy};
use vstd::prelude::*;

verus! {

/// With a blocking strategy the waiters of all processors, the notifiers of the processors, those
/// of the gates and those of the producers meet at one bell: whoever advances a sequence reaches
/// whoever may sleep for it.
pub proof fn all_meet_at_one_bell<E, F: FnMut() -> E, S: Stage, B, P, C>(
    size: usize,
    event_factory: F,
    wait_strategy: BlockingWaitStrategy,
    shared: Shared<E, BlockingWaitStrategy>,
    builder: MPBuilder<S, E, BlockingWaitStrategy, B, P>,
    station: Station<E, BlockingWaitStrategy, B>,
    waiter: BlockingWaiter,
    gate: GatedSequence<BlockingNotifier>,
    parts: MultiProducerParts<E, C, BlockingWaitStrategy, P>,
)
    requires
        shared.begun(size, event_factory, wait_strategy),
        builder.common().same_base(&shared),
        builder.processes_by(&station),
        call_ensures(BlockingWaitStrategy::new_waiter, (&station.wait_strategy,), waiter),
        cloned(builder.common().notifier, gate.wakes()),
        builder.yields(&parts),
    ensures
        waiter.sleeps_by() == wait_strategy.sleeps_by(),
        waiter.tries() == wait_strategy.tries(),
        station.notifier.rings() == wait_strategy.sleeps_by(),
        gate.wakes().rings() == wait_strategy.sleeps_by(),
        parts.notifier.rings() == wait_strategy.sleeps_by(),
{
}

/// With a lite blocking strategy all of them meet at one bell too, and so at one flag.
pub proof fn all_meet_at_one_bell_and_flag<E, F: FnMut() -> E, S: Stage, B, P, C>(
    size: usize,
    event_factory: F,
    wait_strategy: LiteBlockingWaitStrategy,
    shared: Shared<E, LiteBlockingWaitStrategy>,
    builder: MPBuilder<S, E, LiteBlockingWaitStrategy, B, P>,
    station: Station<E, LiteBlockingWaitStrategy, B>,
    waiter: LiteBlockingWaiter,
    gate: GatedSequence<LiteBlockingNotifier>,
    parts: MultiProducerParts<E, C, LiteBlockingWaitStrategy, P>,
)
    requires
        shared.begun(size, event_factory, wait_strategy),
        builder.common().same_base(&shared),
        builder.processes_by(&station),
        call_ensures(LiteBlockingWaitStrategy::new_waiter, (&station.wait_strategy,), waiter),
        cloned(builder.common().notifier, gate.wakes()),
        builder.yields(&parts),
    ensures
        waiter.sleeps_by() == wait_strategy.sleeps_by(),
        waiter.tries() == wait_strategy.tries(),
        station.notifier.rings() == wait_strategy.sleeps_by(),
        gate.wakes().rings() == wait_strategy.sleeps_by(),
        parts.notifier.rings() == wait_strategy.sleeps_by(),
{
}

/// Whoever is told to wake the waiters of a blocking strategy rings its bell.
pub proof fn a_wake_rings_the_bell(notifier: BlockingNotifier)
    requires
        woken(&notifier),
    ensures
        rang(notifier.rings()),
{
}

/// Whoever is told to wake the waiters of a lite blocking strategy rings its bell: the flag is taken
/// down and, if it was up, the counter is raised and the sleepers are notified.
pub proof fn a_lite_wake_rings_the_bell(notifier: LiteBlockingNotifier)
    requires
        woken(&notifier),
    ensures
        rang(notifier.rings()),
{
}

/// A bell whose flag is down is left alone: neither its lock nor its counter is touched, and nobody
/// is notified.
pub proof fn a_wake_without_need_does_nothing(log: Seq<Ring>)
    requires
        rung(true, log),
        log[0] == (Ring::Taken { raised: false }),
    ensures
        log == seq![Ring::Taken { raised: false }],
{
    if log != seq![Ring::Taken { raised: false }] {
        let epoch = choose|epoch: u64|
            #![trigger next_epoch(epoch)]
            log == seq![Ring::Taken { raised: true }] + seq![
                Ring::Lock { epoch },
                Ring::Count { epoch: next_epoch(epoch) },
                Ring::Notification,
            ];
        assert(log[0] == Ring::Taken { raised: true });
    }
}

} // verus!
