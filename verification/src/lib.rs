use vstd::prelude::*;

pub mod appservices;
pub mod commands;
pub mod config;
pub mod federation;
pub mod handlers;
pub mod media;
pub mod matrix;
pub mod parse;
pub mod rooms;
pub mod server;
pub mod text;
pub mod tokens;
pub mod users;

verus! {

} // verus!
