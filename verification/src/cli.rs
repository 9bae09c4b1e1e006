//! The agent's command-line arguments, as plain values.
//!
//! Parsing them out of the process environment happens outside the
//! library; the library only states their shape.

use vstd::prelude::*;

verus! {

/// The agent's startup configuration.
pub struct Args {
    pub api_key: String,
    pub robot_server_url: String,
    pub mode: String,
    pub socket_filename: String,
    pub key_filename: String,
}

impl Args {
    pub fn new(
        api_key: String,
        robot_server_url: String,
        mode: String,
        socket_filename: String,
        key_filename: String,
    ) -> (r: Self)
        ensures
            r.api_key == api_key,
            r.robot_server_url == robot_server_url,
            r.mode == mode,
            r.socket_filename == socket_filename,
            r.key_filename == key_filename,
    {
        Args { api_key, robot_server_url, mode, socket_filename, key_filename }
    }
}

} // verus!
