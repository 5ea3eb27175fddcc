//! The concurrent and hashed tables that the balancer keeps its per-session,
//! per-client, per-backend and per-server state in. Each module that keeps a table names
//! what it holds and gives the methods it calls their contracts.
use vstd::prelude::*;

verus! {

/// `dashmap::DashMap`, a sharded concurrent hash map. Opaque: what a table
/// holds is named where it is used.
#[verifier::external_type_specification]
#[verifier::external_body]
#[verifier::reject_recursive_types(K)]
#[verifier::reject_recursive_types(V)]
#[verifier::reject_recursive_types(S)]
pub struct ExDashMap<K, V, S>(dashmap::DashMap<K, V, S>);

/// `ahash::AHashMap`, a hash map with the aHash hasher. Opaque: what a map
/// holds is named where it is used.
#[verifier::external_type_specification]
#[verifier::external_body]
#[verifier::reject_recursive_types(K)]
#[verifier::reject_recursive_types(V)]
#[verifier::reject_recursive_types(S)]
pub struct ExAHashMap<K, V, S>(ahash::AHashMap<K, V, S>);

/// `ahash::RandomState`, the hasher that an `AHashMap` is made with.
#[verifier::external_type_specification]
#[verifier::external_body]
pub struct ExAHashState(ahash::RandomState);

} // verus!
