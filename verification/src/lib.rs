use vstd::prelude::*;

pub mod discord;
pub mod event;
pub mod filter;
pub mod github;
pub mod json;
pub mod signature;
pub mod stats;
pub mod status;
pub mod text;
pub mod throttle;
pub mod util;

verus! {

/// Completely drop Github POST requests concerning private repos.
pub const IGNORE_PRIVATE_REPOS: bool = true;

/// Process Github POST requests concerning private repos
/// but never send outbound traffic (e.g. Discord).
pub const DONT_MESSAGE_ON_PRIVATE_REPOS: bool = true;

} // verus!
