//! Subscribers for events.
use vstd::prelude::*;

verus! {

/// An event subscriber: a handler that is called each time the event fires.
pub struct Event<F> {
    pub handler: F,
}

impl<F> Event<F> {
    /// Subscribe a handler.
    pub fn new(handler: F) -> (r: Self)
        ensures
            r.handler == handler,
    {
        Event { handler }
    }

    /// Fire the event: call the handler and return what it returns.
    pub fn dispatch<T>(&self) -> (r: T)
        where
            F: Fn() -> T,
        requires
            call_requires(self.handler, ()),
        ensures
            call_ensures(self.handler, (), r),
    {
        (self.handler)()
    }
}

} // verus!
