use vstd::prelude::*;

pub mod client;
pub mod net;
pub mod player;
pub mod private_key;
pub mod protocol;
pub mod server;
pub mod text;

verus! {

} // verus!
