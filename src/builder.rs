//! The framework application under assembly, up to the call that builds it.

use vstd::prelude::*;

verus! {

/// A misuse of the builder that leaves no state to go on from.
#[derive(Clone, Copy, Debug, PartialEq, Eq, Structural)]
pub enum UsageFault {
    /// The application was already built and handed out.
    AlreadyBuilt,
}

/// Holds the framework application until it is built.
pub struct Assembly<A> {
    pub inner: Option<A>,
}

impl<A> Assembly<A> {
    /// Whether the application was handed out already.
    pub open spec fn is_built(&self) -> bool {
        self.inner.is_none()
    }

    /// Starts assembling `app`.
    pub fn new(app: A) -> (r: Self)
        ensures
            r.inner == Some(app),
    {
        Assembly { inner: Some(app) }
    }

    /// Whether the application was handed out already.
    pub fn built(&self) -> (r: bool)
        ensures
            r == self.is_built(),
    {
        self.inner.is_none()
    }

    /// Takes the application out to hand it to one of its own builder calls.
    pub fn take(&mut self) -> (r: Option<A>)
        ensures
            r == old(self).inner,
            final(self).inner.is_none(),
    {
        self.inner.take()
    }

    /// Puts back what a builder call returned.
    pub fn restore(&mut self, app: Option<A>)
        ensures
            final(self).inner == app,
    {
        self.inner = app;
    }

    /// Hands out the application. Every later call is refused with
    /// `AlreadyBuilt`: a second build never yields a stale application.
    pub fn build(&mut self) -> (r: Result<A, UsageFault>)
        ensures
            final(self).is_built(),
            old(self).inner.is_some() ==> r == Ok::<A, UsageFault>(old(self).inner.unwrap()),
            old(self).is_built() ==> r == Err::<A, UsageFault>(UsageFault::AlreadyBuilt),
    {
        match self.inner.take() {
            Some(app) => Ok(app),
            None => Err(UsageFault::AlreadyBuilt),
        }
    }
}

} // verus!
