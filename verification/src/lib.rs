//! A credential-authentication core: salted memory-hard password hashing,
//! signed time-bounded bearer tokens, a uniqueness-checked credential store,
//! and the signup / login / authorize flows that tie them together.
//!
//! The surrounding HTTP layer is an external collaborator: it hands this
//! library plain values (usernames, passwords, token strings, clock readings)
//! and receives plain values back.

use vstd::prelude::*;

pub mod auth;
pub mod claims;
pub mod digits;
pub mod errors;
pub mod hasher;
pub mod store;
pub mod text;
pub mod token;

verus! {

/// Greeting served at the root of the surrounding service.
pub fn index() -> (r: &'static str)
    ensures
        r@ == "Hello, world!"@,
{
    "Hello, world!"
}

} // verus!
