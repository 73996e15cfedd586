//! What the BDS manager advertises in the server list while the
//! Bedrock server sleeps.
use vstd::prelude::*;
use crate::config_manager::config::Config;

verus! {

broadcast use vstd::string::group_string_axioms;

/// A game mode of Minecraft.
#[derive(Debug, Clone, Copy, PartialEq, Eq, Structural)]
pub enum Gamemode {
    Survival,
    Creative,
    Adventure,
    Spectator,
}

impl Gamemode {
    /// The name of the game mode as the server list shows it.
    pub fn as_str(&self) -> (s: &str)
        ensures
            *self == Gamemode::Survival ==> s@ == "Survival"@,
            *self == Gamemode::Creative ==> s@ == "Creative"@,
            *self == Gamemode::Adventure ==> s@ == "Adventure"@,
            *self == Gamemode::Spectator ==> s@ == "Spectator"@,
    {
        match self {
            Gamemode::Survival => "Survival",
            Gamemode::Creative => "Creative",
            Gamemode::Adventure => "Adventure",
            Gamemode::Spectator => "Spectator",
        }
    }
}

/// The message of the day that the server list shows.
pub struct Motd {
    /// The name of the server
    pub name: String,
    /// The protocol version
    pub protocol: u16,
    /// The version of the server
    pub version: String,
    /// The maximum number of players
    pub max_players: u32,
    /// The gamemode of the server
    pub gamemode: Gamemode,
    /// The server's IPv4 port
    pub port: u16,
}

/// The protocol version advertised for `config`: the configured one where it
/// is positive, else the one that the table of known versions gives for
/// `config.version` (`known_protocol`), else 0.
pub open spec fn advertised_protocol(config_protocol: i16, known_protocol: Option<u16>) -> u16 {
    if config_protocol > 0 {
        config_protocol as u16
    } else {
        match known_protocol {
            Some(p) => p,
            None => 0,
        }
    }
}

/// A positive configured protocol is advertised as it is, whatever the table
/// of known versions gives; otherwise the table's answer is advertised, or 0
/// where the table does not know the version.
pub proof fn law_positive_protocol_is_advertised(config_protocol: i16, known_protocol: Option<u16>)
    ensures
        config_protocol > 0 ==> advertised_protocol(config_protocol, known_protocol) as int
            == config_protocol as int,
        config_protocol <= 0 && known_protocol is Some ==> advertised_protocol(
            config_protocol,
            known_protocol,
        ) == known_protocol->0,
        config_protocol <= 0 && known_protocol is None ==> advertised_protocol(
            config_protocol,
            known_protocol,
        ) == 0,
{
}

/// The advertisement of the sleeping server: the hibernation message as its
/// name, room for two players, creative mode, the proxy's port, and the
/// configured version. `known_protocol` is what the table of known versions
/// gives for `config.version`.
pub fn get_advertisement(config: Config, known_protocol: Option<u16>) -> (m: Motd)
    ensures
        m.gamemode == Gamemode::Creative,
        m.name@ == config.hibernating_motd@,
        m.max_players == 2,
        m.port == config.port,
        m.protocol == advertised_protocol(config.protocol_version, known_protocol),
        config.protocol_version > 0 ==> m.protocol == config.protocol_version as u16,
        config.protocol_version <= 0 ==> m.protocol == (match known_protocol {
            Some(p) => p,
            None => 0u16,
        }),
        m.version@ == config.version@,
{
    let protocol_version = if config.protocol_version > 0 {
        config.protocol_version as u16
    } else {
        match known_protocol {
            Some(p) => p,
            None => 0,
        }
    };
    Motd {
        gamemode: Gamemode::Creative,
        name: config.hibernating_motd,
        max_players: 2,
        port: config.port,
        protocol: protocol_version,
        version: config.version,
    }
}

} // verus!
