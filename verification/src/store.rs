//! The concurrent map (`dashmap::DashMap`) that the rate limiter and the
//! honeypot keep their per-key state in.

use vstd::prelude::*;

verus! {

/// `dashmap::DashMap`, carried opaquely; what it holds is given by the
/// names each user of it declares.
#[verifier::external_type_specification]
#[verifier::external_body]
#[verifier::reject_recursive_types(K)]
#[verifier::reject_recursive_types(V)]
#[verifier::reject_recursive_types(S)]
pub struct ExDashMap<K, V, S>(dashmap::DashMap<K, V, S>);

} // verus!
