//! The settings of a relay server.
use vstd::prelude::*;

verus! {

#[derive(Debug, Clone, PartialEq, Eq)]
pub struct RelayConfig {
    pub bind_address: String,
    pub port: u16,
    pub room_timeout_secs: u64,
    pub max_connections: u32,
}

impl Default for RelayConfig {
    fn default() -> (config: Self)
        ensures
            config.bind_address@ == "0.0.0.0"@,
            config.port == 9009,
            config.room_timeout_secs == 600,
            config.max_connections == 1024,
    {
        Self {
            bind_address: "0.0.0.0".to_owned(),
            port: 9009,
            room_timeout_secs: 600,
            max_connections: 1024,
        }
    }
}

} // verus!
