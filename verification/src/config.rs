//! The configuration of the hibernation proxy (`mbh_config.json`), with the
//! default of each setting.
use vstd::prelude::*;

verus! {

broadcast use vstd::string::group_string_axioms;

/// The settings of the proxy.
#[derive(Debug, Clone, PartialEq)]
pub struct Config {
    /// The port players connect to (the proxy listens on it).
    pub port: u16,
    /// The port the Bedrock server itself listens on.
    pub bedrock_server_port: u16,
    /// The Bedrock protocol version; zero or less asks for detection.
    pub protocol_version: i16,
    /// The Minecraft version shown to clients; `"auto"` asks for detection.
    pub version: String,
    /// The message shown in the server list while the server sleeps.
    pub hibernating_motd: String,
    /// The path of the Bedrock server executable.
    pub bedrock_file_path: String,
    /// How long the server may run with nobody online before it is stopped.
    pub stop_empty_server_after_seconds: u32,
}

/// The default proxy port.
pub fn default_port() -> (p: u16)
    ensures
        p == 19132,
{
    19132
}

/// The default port of the Bedrock server.
pub fn default_bedrock_server_port() -> (p: u16)
    ensures
        p == 19134,
{
    19134
}

/// The default protocol version: detect it.
pub fn default_protocol_version() -> (v: i16)
    ensures
        v == -1,
{
    -1
}

/// The default Minecraft version: detect it.
pub fn default_version() -> (v: String)
    ensures
        v@ == "auto"@,
{
    "auto".to_string()
}

/// The default message shown while the server sleeps.
pub fn default_hibernating_motd() -> (m: String)
    ensures
        m@ == "Server is Hibernating"@,
{
    "Server is Hibernating".to_string()
}

/// The path separator of the platform, `std::path::MAIN_SEPARATOR`. Nothing is
/// stated of it: which character it is depends on the platform built for.
#[verifier::external_body]
fn main_separator() -> char {
    std::path::MAIN_SEPARATOR
}

/// The default path of the Bedrock server executable on a platform whose
/// path separator is `separator`: the Windows executable where the
/// separator is `\`, the Unix one otherwise.
pub fn bedrock_file_path_for(separator: char) -> (p: String)
    ensures
        separator == '\\' ==> p@ == ".\\bedrock_server.exe"@,
        separator != '\\' ==> p@ == "./bedrock_server"@,
{
    if separator == '\\' {
        ".\\bedrock_server.exe".to_string()
    } else {
        "./bedrock_server".to_string()
    }
}

/// The default path of the Bedrock server executable on this platform.
pub fn default_bedrock_file_path() -> (p: String)
    ensures
        p@ == ".\\bedrock_server.exe"@ || p@ == "./bedrock_server"@,
{
    bedrock_file_path_for(main_separator())
}

/// The default idle time before the server is stopped, in seconds.
pub fn default_stop_empty_server_after_seconds() -> (s: u32)
    ensures
        s == 60,
{
    60
}

impl Default for Config {
    /// The configuration written on the first run.
    fn default() -> (c: Self)
        ensures
            c.port == 19132,
            c.bedrock_server_port == 19134,
            c.protocol_version == -1,
            c.version@ == "auto"@,
            c.hibernating_motd@ == "Server is Hibernating"@,
            c.bedrock_file_path@ == ".\\bedrock_server.exe"@ || c.bedrock_file_path@
                == "./bedrock_server"@,
            c.stop_empty_server_after_seconds == 60,
    {
        Config {
            port: default_port(),
            bedrock_server_port: default_bedrock_server_port(),
            protocol_version: default_protocol_version(),
            version: default_version(),
            hibernating_motd: default_hibernating_motd(),
            bedrock_file_path: default_bedrock_file_path(),
            stop_empty_server_after_seconds: default_stop_empty_server_after_seconds(),
        }
    }
}

} // verus!
