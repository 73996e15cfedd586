//! The message of the day (MOTD) that a Bedrock server answers a ping with:
//! fields separated by `;`, the first twelve of them known.
//!
//! `MCPE;<server name>;<protocol>;<version>;<players>;<max players>;<server id>;
//! <world name>;<game mode>;<game mode number>;<IPv4 port>;<IPv6 port>;...`
use vstd::prelude::*;
use crate::config::Config;
use crate::text::{
    chars_of, parse_int_in_range, parse_integer, split, split_chars, str_equals,
    string_from_chars,
};

verus! {

broadcast use vstd::string::group_string_axioms;

/// The fields of a server's message of the day.
#[derive(Debug)]
pub struct Motd {
    pub game_type: String,
    pub server_name: String,
    pub protocol_version: i16,
    pub minecraft_version: String,
    pub player_count: u32,
    pub max_player_count: u32,
    pub server_id: String,
    pub world_name: String,
    pub gamemode: String,
    pub numeric_gamemode: u8,
    pub port_v4: u16,
    pub port_v6: u16,
}

/// `str::parse::<i16>`.
pub open spec fn parse_i16(s: Seq<char>) -> Option<int> {
    parse_integer(s, -0x8000, 0x7fff)
}

/// `str::parse::<u8>`.
pub open spec fn parse_u8(s: Seq<char>) -> Option<int> {
    parse_integer(s, 0, 0xff)
}

/// `str::parse::<u16>`.
pub open spec fn parse_u16(s: Seq<char>) -> Option<int> {
    parse_integer(s, 0, 0xffff)
}

/// `str::parse::<u32>`.
pub open spec fn parse_u32(s: Seq<char>) -> Option<int> {
    parse_integer(s, 0, 0xffff_ffff)
}

/// The `;`-separated fields `parts` make a message of the day: there are at
/// least twelve, and the numeric ones are numbers of their types.
pub open spec fn motd_fields_valid(parts: Seq<Seq<char>>) -> bool {
    &&& parts.len() >= 12
    &&& parse_i16(parts[2]) is Some
    &&& parse_u32(parts[4]) is Some
    &&& parse_u32(parts[5]) is Some
    &&& parse_u8(parts[9]) is Some
    &&& parse_u16(parts[10]) is Some
    &&& parse_u16(parts[11]) is Some
}

/// `m` holds the first twelve fields of `parts`, in order.
pub open spec fn motd_holds_fields(m: Motd, parts: Seq<Seq<char>>) -> bool {
    &&& m.game_type@ == parts[0]
    &&& m.server_name@ == parts[1]
    &&& parse_i16(parts[2]) == Some(m.protocol_version as int)
    &&& m.minecraft_version@ == parts[3]
    &&& parse_u32(parts[4]) == Some(m.player_count as int)
    &&& parse_u32(parts[5]) == Some(m.max_player_count as int)
    &&& m.server_id@ == parts[6]
    &&& m.world_name@ == parts[7]
    &&& m.gamemode@ == parts[8]
    &&& parse_u8(parts[9]) == Some(m.numeric_gamemode as int)
    &&& parse_u16(parts[10]) == Some(m.port_v4 as int)
    &&& parse_u16(parts[11]) == Some(m.port_v6 as int)
}

/// Reads the fields of a message of the day that a server answered a ping
/// with; `None` where it has fewer than twelve fields or a numeric field is
/// not a number of its type.
pub fn parse_server_motd(motd: &str) -> (r: Option<Motd>)
    ensures
        r is Some <==> motd_fields_valid(split(motd@, ';')),
        r matches Some(m) ==> motd_holds_fields(m, split(motd@, ';')),
{
    let v = chars_of(motd);
    let parts = split_chars(&v, ';');
    let ghost ps = split(motd@, ';');
    assert(forall|i: int| 0 <= i < parts.len() ==> #[trigger] parts@[i]@ == ps[i]);
    if parts.len() < 12 {
        return None;
    }
    let protocol_version = match parse_int_in_range(&parts[2], -0x8000, 0x7fff) {
        Some(x) => x as i16,
        None => {
            return None;
        },
    };
    let player_count = match parse_int_in_range(&parts[4], 0, 0xffff_ffff) {
        Some(x) => x as u32,
        None => {
            return None;
        },
    };
    let max_player_count = match parse_int_in_range(&parts[5], 0, 0xffff_ffff) {
        Some(x) => x as u32,
        None => {
            return None;
        },
    };
    let numeric_gamemode = match parse_int_in_range(&parts[9], 0, 0xff) {
        Some(x) => x as u8,
        None => {
            return None;
        },
    };
    let port_v4 = match parse_int_in_range(&parts[10], 0, 0xffff) {
        Some(x) => x as u16,
        None => {
            return None;
        },
    };
    let port_v6 = match parse_int_in_range(&parts[11], 0, 0xffff) {
        Some(x) => x as u16,
        None => {
            return None;
        },
    };
    Some(
        Motd {
            game_type: string_from_chars(parts[0].as_slice()),
            server_name: string_from_chars(parts[1].as_slice()),
            protocol_version,
            minecraft_version: string_from_chars(parts[3].as_slice()),
            player_count,
            max_player_count,
            server_id: string_from_chars(parts[6].as_slice()),
            world_name: string_from_chars(parts[7].as_slice()),
            gamemode: string_from_chars(parts[8].as_slice()),
            numeric_gamemode,
            port_v4,
            port_v6,
        },
    )
}

/// The message of the day advertised for the sleeping server: the hibernation
/// message, the configured protocol and version, no player of one, creative
/// mode, and the proxy's port.
pub fn get_motd_from_config(config: &Config) -> (m: Motd)
    ensures
        m.game_type@ == "MCPE"@,
        m.server_name@ == config.hibernating_motd@,
        m.protocol_version == config.protocol_version,
        m.minecraft_version@ == config.version@,
        m.player_count == 0,
        m.max_player_count == 1,
        m.server_id@ == Seq::<char>::empty(),
        m.world_name@ == "Bedrock level"@,
        m.gamemode@ == "Creative"@,
        m.numeric_gamemode == 1,
        m.port_v4 == config.port,
        m.port_v6 == 19133,
{
    Motd {
        game_type: "MCPE".to_string(),
        server_name: config.hibernating_motd.clone(),
        protocol_version: config.protocol_version,
        minecraft_version: config.version.clone(),
        player_count: 0,
        max_player_count: 1,
        server_id: String::new(),
        world_name: "Bedrock level".to_string(),
        gamemode: "Creative".to_string(),
        numeric_gamemode: 1,
        port_v4: config.port,
        port_v6: 19133,
    }
}

// ---------------------------------------------------------------------------
// The versions that the proxy advertises
// ---------------------------------------------------------------------------

/// Why the versions to advertise could not be found.
#[derive(Debug, Clone, Copy, PartialEq, Eq, Structural)]
pub enum VersionError {
    /// The server's message of the day was needed and could not be had.
    MotdUnavailable,
    /// The message of the day has no Minecraft version field.
    MinecraftVersionMissing,
    /// The message of the day has no protocol field that is a `u16`.
    ProtocolVersionMissing,
}

/// The Minecraft version and the protocol version that the proxy advertises.
#[derive(Debug)]
pub struct AdvertisedVersions {
    pub minecraft_version: String,
    pub protocol_version: u16,
}

/// The configured version asks for detection.
pub open spec fn detects_version(version: Seq<char>) -> bool {
    version == "auto"@
}

/// The configuration asks for a version that only the running server can
/// tell: the Minecraft version is `"auto"`, or the protocol is not positive.
pub open spec fn needs_motd(version: Seq<char>, protocol: i16) -> bool {
    detects_version(version) || protocol <= 0
}

/// The versions to advertise for the configured `version` and `protocol`,
/// given the server's message of the day `motd` (asked for only where
/// `needs_motd`): each configured value, or, where it asks for detection, the
/// field of the message of the day (the fourth for the version, the third,
/// read as a `u16`, for the protocol).
pub open spec fn resolved_versions(version: Seq<char>, protocol: i16, motd: Option<Seq<char>>) -> Result<(Seq<char>, u16), VersionError> {
    if needs_motd(version, protocol) && motd is None {
        Err(VersionError::MotdUnavailable)
    } else {
        let parts = split(motd->0, ';');
        if detects_version(version) && parts.len() <= 3 {
            Err(VersionError::MinecraftVersionMissing)
        } else if protocol <= 0 && (parts.len() <= 2 || parse_u16(parts[2]) is None) {
            Err(VersionError::ProtocolVersionMissing)
        } else {
            let mc = if detects_version(version) {
                parts[3]
            } else {
                version
            };
            let p = if protocol > 0 {
                protocol as u16
            } else {
                parse_u16(parts[2])->0 as u16
            };
            Ok((mc, p))
        }
    }
}

/// Versions that are set in the configuration are advertised as they are, and
/// the server is not asked for them: whatever `motd` is, a Minecraft version
/// other than `"auto"` and a positive protocol are the result.
pub proof fn law_configured_versions_are_advertised(version: Seq<char>, protocol: i16, motd: Option<Seq<char>>)
    requires
        !detects_version(version),
        protocol > 0,
    ensures
        !needs_motd(version, protocol),
        resolved_versions(version, protocol, motd) == Ok::<(Seq<char>, u16), VersionError>(
            (version, protocol as u16),
        ),
{
}

/// Detected versions are those that the server states: where both versions
/// are detected from a message of the day that reads as a whole, the
/// advertised Minecraft version is its version field and the advertised
/// protocol is its protocol field. This holds wherever the protocol field does
/// not start with `-` (a field such as `-0` reads as the `i16` zero but is no
/// `u16`).
pub proof fn law_detected_versions_match_motd(protocol: i16, motd: Seq<char>)
    requires
        protocol <= 0,
        motd_fields_valid(split(motd, ';')),
        split(motd, ';')[2].len() > 0 && split(motd, ';')[2][0] != '-',
    ensures
        resolved_versions("auto"@, protocol, Some(motd)) == Ok::<(Seq<char>, u16), VersionError>(
            (split(motd, ';')[3], parse_i16(split(motd, ';')[2])->0 as u16),
        ),
{
    let p = split(motd, ';')[2];
    assert(crate::text::integer_value(p, true) == crate::text::integer_value(p, false));
    assert(parse_u16(p) == parse_i16(p));
}

/// Where the configured protocol is not positive, the advertised protocol is
/// the number in the third field of the server's message of the day, whether
/// the Minecraft version is configured or detected: for a configured version,
/// the result is that version with that protocol; for `"auto"`, the fourth
/// field with that protocol, where there is a fourth field.
pub proof fn law_detected_protocol_whatever_the_version(version: Seq<char>, protocol: i16, motd: Seq<char>)
    ensures
        protocol <= 0 && split(motd, ';').len() > 2 && parse_u16(split(motd, ';')[2]) is Some
            && !detects_version(version) ==> resolved_versions(version, protocol, Some(motd))
            == Ok::<(Seq<char>, u16), VersionError>(
            (version, parse_u16(split(motd, ';')[2])->0 as u16),
        ),
        protocol <= 0 && split(motd, ';').len() > 3 && parse_u16(split(motd, ';')[2]) is Some
            && detects_version(version) ==> resolved_versions(version, protocol, Some(motd))
            == Ok::<(Seq<char>, u16), VersionError>(
            (split(motd, ';')[3], parse_u16(split(motd, ';')[2])->0 as u16),
        ),
{
}

/// A positive configured protocol is advertised as it is, whatever the
/// server's message of the day says.
pub proof fn law_configured_protocol_is_kept(version: Seq<char>, protocol: i16, motd: Option<Seq<char>>)
    requires
        protocol > 0,
    ensures
        resolved_versions(version, protocol, motd) matches Ok(v) ==> v.1 == protocol as u16,
{
}

/// Whether the proxy must ask the running server for its message of the day
/// before it can advertise the versions of `config`.
pub fn needs_server_motd(config: &Config) -> (b: bool)
    ensures
        b == needs_motd(config.version@, config.protocol_version),
{
    str_equals(config.version.as_str(), "auto") || config.protocol_version <= 0
}

/// The versions the proxy advertises for `config`, where `server_motd` is the
/// server's message of the day if it was asked for and answered.
pub fn resolve_versions(config: &Config, server_motd: Option<&str>) -> (r: Result<
    AdvertisedVersions,
    VersionError,
>)
    ensures
        match r {
            Ok(v) => resolved_versions(
                config.version@,
                config.protocol_version,
                match server_motd {
                    Some(m) => Some(m@),
                    None => None,
                },
            ) == Ok::<(Seq<char>, u16), VersionError>((v.minecraft_version@, v.protocol_version)),
            Err(e) => resolved_versions(
                config.version@,
                config.protocol_version,
                match server_motd {
                    Some(m) => Some(m@),
                    None => None,
                },
            ) == Err::<(Seq<char>, u16), VersionError>(e),
        },
        config.protocol_version > 0 ==> (r matches Ok(v) && v.protocol_version
            == config.protocol_version as u16) || r == Err::<AdvertisedVersions, VersionError>(
            VersionError::MotdUnavailable,
        ) || r == Err::<AdvertisedVersions, VersionError>(VersionError::MinecraftVersionMissing),
        config.protocol_version <= 0 && server_motd is Some && split((server_motd->0)@, ';').len()
            > 2 && parse_u16(split((server_motd->0)@, ';')[2]) is Some && (!detects_version(
            config.version@,
        ) || split((server_motd->0)@, ';').len() > 3) ==> (r matches Ok(v) && v.protocol_version
            as int == parse_u16(split((server_motd->0)@, ';')[2])->0),
        !detects_version(config.version@) ==> (r matches Ok(v) ==> v.minecraft_version@
            == config.version@),
{
    proof {
        if let Some(m) = server_motd {
            law_detected_protocol_whatever_the_version(config.version@, config.protocol_version, m@);
        }
    }
    let ghost motd_view = match server_motd {
        Some(m) => Some(m@),
        None => None::<Seq<char>>,
    };
    let detect = str_equals(config.version.as_str(), "auto");
    let needs = detect || config.protocol_version <= 0;
    if !needs {
        return Ok(
            AdvertisedVersions {
                minecraft_version: config.version.clone(),
                protocol_version: config.protocol_version as u16,
            },
        );
    }
    let motd = match server_motd {
        Some(m) => m,
        None => {
            return Err(VersionError::MotdUnavailable);
        },
    };
    let v = chars_of(motd);
    let parts = split_chars(&v, ';');
    let ghost ps = split(motd@, ';');
    assert(forall|i: int| 0 <= i < parts.len() ==> #[trigger] parts@[i]@ == ps[i]);
    let minecraft_version = if detect {
        if parts.len() <= 3 {
            return Err(VersionError::MinecraftVersionMissing);
        }
        string_from_chars(parts[3].as_slice())
    } else {
        config.version.clone()
    };
    let protocol_version = if config.protocol_version > 0 {
        config.protocol_version as u16
    } else {
        if parts.len() <= 2 {
            return Err(VersionError::ProtocolVersionMissing);
        }
        match parse_int_in_range(&parts[2], 0, 0xffff) {
            Some(x) => x as u16,
            None => {
                return Err(VersionError::ProtocolVersionMissing);
            },
        }
    };
    Ok(AdvertisedVersions { minecraft_version, protocol_version })
}

} // verus!
