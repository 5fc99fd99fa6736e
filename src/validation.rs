//! A pass-through stage for request payloads: every request reaches the
//! wrapped service unchanged; the payload rules themselves are checked where
//! each body is read.

use vstd::prelude::*;

verus! {

/// The stage, before it is placed in front of a service.
pub struct ValidateRequest<T> {
    pub marker: core::marker::PhantomData<T>,
}

impl<T> Default for ValidateRequest<T> {
    fn default() -> (r: Self)
        ensures
            r.marker == core::marker::PhantomData::<T>,
    {
        ValidateRequest { marker: core::marker::PhantomData }
    }
}

impl<T> ValidateRequest<T> {
    /// Places the stage in front of `service`.
    pub fn new_transform<S>(&self, service: S) -> (r: ValidateRequestMiddleware<S>)
        ensures
            r.service == service,
    {
        ValidateRequestMiddleware { service, marker: core::marker::PhantomData }
    }
}

/// A service behind the stage.
pub struct ValidateRequestMiddleware<S> {
    pub service: S,
    pub marker: core::marker::PhantomData<S>,
}

impl<S> ValidateRequestMiddleware<S> {
    /// The service every request is forwarded to.
    pub fn call(&self) -> (r: &S)
        ensures
            *r == self.service,
    {
        &self.service
    }
}

} // verus!
