//! The application's configuration: where it listens, and how it reaches
//! and picks Matrix homeservers. Reading the TOML file is the application's.

use vstd::prelude::*;

verus! {

/// The configuration file.
#[derive(Debug, Clone)]
pub struct Config {
    pub server: Server,
    pub matrix: Matrix,
}

/// The web server.
#[derive(Debug, Clone)]
pub struct Server {
    pub bind: String,
}

/// The Matrix side: the homeservers a login may use (any, when
/// `allow_any_server`), the admin bot and room, and the device to log in as.
#[derive(Debug, Clone)]
pub struct Matrix {
    pub homeservers: Vec<String>,
    pub allow_any_server: bool,
    pub admin_bot: String,
    pub admin_room_alias: String,
    pub device_id: String,
    pub device_display_name: String,
}

} // verus!
