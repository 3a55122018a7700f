//! The reloader: the one mutable cell of a gateway, holding the routed
//! service that requests are served by.
use vstd::prelude::*;

verus! {

/// The live service and how many times it was replaced.
pub struct Reloader<S> {
    current: S,
    generation: u64,
}

/// What a request holds from entry to exit: the service of one generation.
pub struct Lease<S> {
    pub generation: u64,
    pub service: S,
}

impl<S: Copy> Reloader<S> {
    pub closed spec fn current(&self) -> S {
        self.current
    }

    pub closed spec fn generation(&self) -> u64 {
        self.generation
    }

    pub fn new(service: S) -> (r: Self)
        ensures
            r.current() == service,
            r.generation() == 0,
    {
        Reloader { current: service, generation: 0 }
    }

    /// The lease a request takes on entry; it keeps this generation's
    /// service to its end, whatever is swapped in meanwhile.
    pub fn lease(&self) -> (r: Lease<S>)
        ensures
            r.service == self.current(),
            r.generation == self.generation(),
    {
        Lease { generation: self.generation, service: self.current }
    }

    /// Swaps in `service`: requests that arrive afterwards see it.
    pub fn reload(&mut self, service: S)
        requires
            old(self).generation() < u64::MAX,
        ensures
            final(self).current() == service,
            final(self).generation() == old(self).generation() + 1,
    {
        self.current = service;
        self.generation = self.generation + 1;
    }
}

} // verus!
