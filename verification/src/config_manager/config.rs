//! The configuration of the BDS manager, with the settings it
//! falls back to where `mbh_config.json` cannot be read.
use vstd::prelude::*;

verus! {

broadcast use vstd::string::group_string_axioms;

/// The settings of the server manager; every one of them must be present in
/// the configuration file.
#[derive(Debug, Clone)]
pub struct Config {
    pub port: u16,
    pub bedrock_server_port: u16,
    pub protocol_version: i16,
    pub version: String,
    pub hibernating_motd: String,
    pub bedrock_file_path: String,
    pub stop_empty_server_after_seconds: u32,
}

/// The configuration written when there is no configuration file, and used
/// where the file cannot be read or parsed.
pub fn default_config() -> (c: Config)
    ensures
        c.hibernating_motd@ == "Server is Hibernating"@,
        c.port == 19132,
        c.protocol_version == -1,
        c.version@ == "auto"@,
        c.bedrock_file_path@ == "./bedrock_server"@,
        c.bedrock_server_port == 19134,
        c.stop_empty_server_after_seconds == 60,
{
    Config {
        hibernating_motd: "Server is Hibernating".to_string(),
        port: 19132,
        protocol_version: -1,
        version: "auto".to_string(),
        bedrock_file_path: "./bedrock_server".to_string(),
        bedrock_server_port: 19134,
        stop_empty_server_after_seconds: 60,
    }
}

} // verus!
