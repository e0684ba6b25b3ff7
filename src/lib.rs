//! Protocol engine of an MMO login server: framed and encrypted transport, packet
//! codecs, per-link state machines, the registry of game servers and logged-in
//! accounts, the request bus towards game servers, and the login decisions.
use vstd::prelude::*;

pub mod buffer;
pub mod errors;
pub mod text;
pub mod reader;
pub mod session;
pub mod to_client;
pub mod to_gs;
pub mod lists;
pub mod from_gs;
pub mod from_client;
pub mod crypt;
pub mod registry;
pub mod controller;
pub mod bus;
pub mod auth;
pub mod state;
pub mod rsa;
pub mod handlers;
pub mod dispatch;
pub mod laws;
pub mod config;
pub mod gs_config;

verus! {

} // verus!
