use vstd::prelude::*;

pub mod confirmation;
pub mod authentication;
pub mod configuration;
pub mod domain;
pub mod http;
pub mod newsletter;
pub mod store;
pub mod subscriptions;

verus! {

} // verus!
