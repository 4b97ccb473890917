use vstd::prelude::*;

pub mod argument;
pub mod channel_state;
pub mod chatters;
pub mod dispatch;
pub mod error;
pub mod identity;
pub mod key_index;
pub mod matcher;
pub mod pattern;
pub mod persisted;
pub mod shared_syntax;
pub mod request;
pub mod response;
pub mod split;
pub mod user;

verus! {

} // verus!
