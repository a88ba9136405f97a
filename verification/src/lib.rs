use vstd::prelude::*;

pub mod auth;
pub mod error;
pub mod extensions;
pub mod ieee754;
pub mod json;
pub mod jwt;
pub mod keyed;
pub mod laws;
pub mod log_store;
pub mod metrics;
pub mod mode;
pub mod mode_registry;
pub mod ordered;
pub mod pb;
pub mod policy;
pub mod replay;
pub mod runtime;
pub mod security;
pub mod session;
pub mod text;

verus! {

} // verus!
