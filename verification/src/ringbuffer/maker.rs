//! The record of what a factory gave.
//!
//! What a [`Maker`] says was made by its factory, one call after the other: its fields are private,
//! and nothing but a call of the factory extends the record.

use vstd::prelude::*;

verus! {

/// What gives one event after the other, such as a factory.
pub trait Source<E> {
    /// Whether the source can be asked by this reference to it.
    spec fn admits(source: &mut Self) -> bool;

    /// Whether the source can give the event and turn into `after`.
    spec fn gives(&self, event: E, after: &Self) -> bool;

    /// Whether the source can have given the event when it was asked by this reference.
    spec fn gave(source: &mut Self, event: E) -> bool;

    /// Gives the next event.
    fn give(&mut self) -> (event: E)
        requires
            Self::admits(self),
        ensures
            old(self).gives(event, final(self)),
            Self::gave(self, event),
    ;
}

/// Calls what can be called once, which uses it up.
fn call<E, G: FnOnce() -> E>(callee: G) -> (event: E)
    requires
        call_requires(callee, ()),
    ensures
        call_ensures(callee, (), event),
{
    callee()
}

impl<E, F: FnMut() -> E> Source<E> for F {
    /// The factory can be called by the reference. A call uses the reference up, and nothing is said
    /// of a call by another one.
    open spec fn admits(source: &mut Self) -> bool {
        call_requires(source, ())
    }

    open spec fn gives(&self, event: E, after: &Self) -> bool {
        &&& call_ensures(*self, (), event)
        &&& *after == *self
    }

    /// The factory was called by the reference.
    open spec fn gave(source: &mut Self, event: E) -> bool {
        call_ensures(source, (), event)
    }

    /// Calls the factory, once: what is required allows for one call, and what is ensured takes one.
    fn give(&mut self) -> (event: E) {
        call(self)
    }
}

/// A factory, and what it gave so far.
pub struct Maker<E, F> {
    event_factory: F,
    made: Ghost<Seq<E>>,
}

impl<E, F> Maker<E, F> {
    /// The factory.
    pub closed spec fn factory(&self) -> F {
        self.event_factory
    }

    /// What the factory gave, call by call.
    pub closed spec fn made(&self) -> Seq<E> {
        self.made@
    }

    /// A maker whose factory was not called yet.
    pub fn new(event_factory: F) -> (maker: Self)
        ensures
            maker.factory() == event_factory,
            maker.made() == Seq::<E>::empty(),
    {
        Maker { event_factory, made: Ghost(Seq::empty()) }
    }
}

impl<E, F: Source<E>> Maker<E, F> {
    /// Calls the factory once.
    pub fn make(&mut self) -> (event: E)
        requires
            forall|factory: &mut F| *factory == old(self).factory() ==> #[trigger] F::admits(factory),
        ensures
            old(self).factory().gives(event, &final(self).factory()),
            final(self).made() == old(self).made().push(event),
    {
        let event = self.event_factory.give();
        self.made = Ghost(self.made@.push(event));
        event
    }
}

} // verus!
