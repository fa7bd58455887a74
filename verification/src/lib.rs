//! Client-side model of a game server's statistics API: the wire-format
//! and domain representations of its responses, the conversions between
//! them, and the query string for its requests.

pub mod b64;
pub mod convert;
pub mod date;
pub mod digits;
pub mod domain;
pub mod ip;
pub mod query;
pub mod scan;
pub mod wire;

use vstd::prelude::*;

verus! {

} // verus!
