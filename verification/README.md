# Disruptor

A low latency library for handing events from producers to consumers through a ring buffer, written
and verified in [Verus](https://github.com/verus-lang/verus).

Events are allocated once, in the slots of a ring buffer whose size is a power of two, and are
numbered by 64-bit sequences. A consumer announces in a cursor how far it has read. Whoever comes
after it, a later consumer or a producer, watches a barrier that is made of such cursors and,
optionally, of gates that actors outside advance (a flushed log, an acknowledged replica).

## Layout

- `src/` is the verified library.
  - `ringbuffer`, `ringbuffer::maker`: the slots, how they are filled at the start, and how many events
    can still be published.
  - `cursor`, `sequence`, `sequence::steps`, `atomics`: the cells that threads communicate through.
  - `barrier`, `consumer`: barriers of one consumer, of a group, and of a group with gates; the loop
    that a processor runs.
  - `consumer::event_poller`, `consumer::progress`: polling from a thread of one's own.
  - `consumer::processor`, `consumer::desk`: a processor on its way to its thread, and what it works
    with there.
  - `event_handler`: what consumers do with events.
  - `wait_strategies`, `wait_strategies::blocking`, `wait_strategies::record`, `monitor`: spinning,
    yielding and sleeping until an event is there.
  - `affinity`: pinning threads to cores.
  - `builder`, `builder::multi`: putting a disruptor together, stage by stage.
  - `laws`: what holds of the library as a whole.
- `app/` runs processors in managed threads.
- `tests/` runs the library.

## How the contracts speak of threads

Other threads may write to a shared cell at any moment, so no contract says what a cell holds. What
the library makes of the values that it has read is decided by functions of plain values, whose
contracts are exact. What it does, and in which order, is kept in records: objects with private
fields that hold a ghost sequence, which only the methods that make an access extend.

- `wait_strategies::record` keeps what a waiter has read of its barrier and its marker, when it has
  spun, yielded, taken the lock, announced itself and slept, and what a waker has done.
- `consumer::desk` keeps what a processor has asked its waiter, which events it has handled, where it
  has moved its cursor to, and when it has woken others.
- `consumer::progress` keeps whether a poller's cursor was moved, and by whom.
- `sequence::steps` keeps how a gate was advanced.
- `ringbuffer::maker` keeps what the event factory gave.

Where a function has `&self` and so nowhere to keep a record, the function that it calls states the
steps over a record, and its own contract says that this function was called with a new one. Beside
the records, `atomics` and `monitor` define predicates that hold of the cells, orderings and values
of calls that were made; they say nothing of order or number.

`laws::wakeup` is a model of the blocking strategies in which waiters and wakers take turns in any
order. It is proved of the model that no wake-up is lost, that every wake returns, and that every
wait returns for which there is something to do, as long as no thread that can go on again and again
is left standing for ever. The waiters and wakers of the library are proved to go by the same
phases, and each access of their records to be a move of the model. The model takes all threads to
see the accesses in one order, which is more than the memory orderings of the library promise.

## Limits

- Sequences are `i64`. A processor that has handled the greatest of them stops.
- A waiter of the library gives up with `Timeout` after as many looks as a `u64` can count.
- A processor stops with `TimedOut` after as many timeouts of its waiter as a `u64` can count. It can
  be run again and goes on where it stopped.
