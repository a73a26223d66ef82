//! What the transport hands to the lifecycle: the endpoints an instance is
//! bound to, or the failure to bind.

use vstd::prelude::*;

verus! {

/// A network address that an instance is bound to.
pub struct Endpoint {
    pub address: String,
}

/// What an endpoint is.
pub struct EndpointView {
    pub address: Seq<char>,
}

impl View for Endpoint {
    type V = EndpointView;

    open spec fn view(&self) -> EndpointView {
        EndpointView { address: self.address@ }
    }
}

impl Clone for Endpoint {
    fn clone(&self) -> (r: Endpoint)
        ensures
            r@ == self@,
    {
        Endpoint { address: self.address.clone() }
    }
}

/// The views of a sequence of endpoints.
pub open spec fn endpoint_views(s: Seq<Endpoint>) -> Seq<EndpointView> {
    s.map_values(|x: Endpoint| x@)
}

/// A failure to bind: the endpoint that was tried, if it is known, and what
/// the transport said.
pub struct BindFailure {
    pub endpoint: Option<Endpoint>,
    pub cause: String,
}

} // verus!
