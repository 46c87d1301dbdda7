//! A connection-handling core for a TCP echo service: each chunk read from a
//! client is answered by echoing it, by a warning when it is not UTF-8, or by
//! a farewell that ends the session when its text starts with `@`.
use vstd::prelude::*;

pub mod session;
pub mod text;

verus! {

} // verus!
