use minecraft_bedrock_hibernation::config::Config;
use minecraft_bedrock_hibernation::motd::{
    get_motd_from_config, needs_server_motd, parse_server_motd, resolve_versions, VersionError,
};

fn config(version: &str, protocol: i16) -> Config {
    Config {
        port: 19132,
        bedrock_server_port: 19134,
        protocol_version: protocol,
        version: version.to_string(),
        hibernating_motd: "Server is Hibernating".to_string(),
        bedrock_file_path: "./bedrock_server".to_string(),
        stop_empty_server_after_seconds: 60,
    }
}

const SAMPLE: &str = "MCPE;Dedicated Server;766;1.21.50;2;10;12345678901234;Bedrock level;Survival;1;19132;19133;";

#[test]
fn parses_a_server_motd() {
    let m = parse_server_motd(SAMPLE).unwrap();
    assert_eq!(m.game_type, "MCPE");
    assert_eq!(m.server_name, "Dedicated Server");
    assert_eq!(m.protocol_version, 766);
    assert_eq!(m.minecraft_version, "1.21.50");
    assert_eq!(m.player_count, 2);
    assert_eq!(m.max_player_count, 10);
    assert_eq!(m.server_id, "12345678901234");
    assert_eq!(m.world_name, "Bedrock level");
    assert_eq!(m.gamemode, "Survival");
    assert_eq!(m.numeric_gamemode, 1);
    assert_eq!(m.port_v4, 19132);
    assert_eq!(m.port_v6, 19133);
}

#[test]
fn motd_with_too_few_fields_is_rejected() {
    assert!(parse_server_motd("MCPE;Server;766;1.21.50;2;10;1;World;Survival;1;19132").is_none());
    assert!(parse_server_motd("").is_none());
}

#[test]
fn motd_with_bad_numbers_is_rejected() {
    assert!(parse_server_motd("MCPE;S;x;1.0;2;10;1;W;Survival;1;19132;19133").is_none());
    assert!(parse_server_motd("MCPE;S;766;1.0;-2;10;1;W;Survival;1;19132;19133").is_none());
    assert!(parse_server_motd("MCPE;S;766;1.0;2;10;1;W;Survival;256;19132;19133").is_none());
    assert!(parse_server_motd("MCPE;S;766;1.0;2;10;1;W;Survival;1;70000;19133").is_none());
    assert!(parse_server_motd("MCPE;S;766;1.0;2;10;1;W;Survival;1;19132; 19133").is_none());
    assert!(parse_server_motd("MCPE;S;+;1.0;2;10;1;W;Survival;1;19132;19133").is_none());
}

#[test]
fn motd_numbers_follow_str_parse() {
    let m = parse_server_motd("MCPE;S;-32768;1.0;+2;4294967295;1;W;Survival;007;65535;0").unwrap();
    assert_eq!(m.protocol_version, -32768);
    assert_eq!(m.player_count, 2);
    assert_eq!(m.max_player_count, 4294967295);
    assert_eq!(m.numeric_gamemode, 7);
    assert_eq!(m.port_v4, 65535);
    assert_eq!(m.port_v6, 0);
    assert!(parse_server_motd("MCPE;S;32768;1.0;2;1;1;W;Survival;1;1;1").is_none());
    assert!(parse_server_motd("MCPE;S;1;1.0;4294967296;1;1;W;Survival;1;1;1").is_none());
}

#[test]
fn motd_from_config_advertises_hibernation() {
    let m = get_motd_from_config(&config("1.21.50", 766));
    assert_eq!(m.game_type, "MCPE");
    assert_eq!(m.server_name, "Server is Hibernating");
    assert_eq!(m.protocol_version, 766);
    assert_eq!(m.minecraft_version, "1.21.50");
    assert_eq!(m.player_count, 0);
    assert_eq!(m.max_player_count, 1);
    assert_eq!(m.server_id, "");
    assert_eq!(m.world_name, "Bedrock level");
    assert_eq!(m.gamemode, "Creative");
    assert_eq!(m.numeric_gamemode, 1);
    assert_eq!(m.port_v4, 19132);
    assert_eq!(m.port_v6, 19133);
}

#[test]
fn motd_is_needed_only_for_detection() {
    assert!(needs_server_motd(&config("auto", 766)));
    assert!(needs_server_motd(&config("1.21.50", -1)));
    assert!(needs_server_motd(&config("1.21.50", 0)));
    assert!(!needs_server_motd(&config("1.21.50", 766)));
    assert!(!needs_server_motd(&config("Auto", 1)));
}

#[test]
fn configured_versions_are_used_as_they_are() {
    let v = resolve_versions(&config("1.21.50", 766), None).ok().unwrap();
    assert_eq!(v.minecraft_version, "1.21.50");
    assert_eq!(v.protocol_version, 766);
}

#[test]
fn detected_versions_come_from_the_motd() {
    let v = resolve_versions(&config("auto", -1), Some(SAMPLE)).ok().unwrap();
    assert_eq!(v.minecraft_version, "1.21.50");
    assert_eq!(v.protocol_version, 766);
    let v = resolve_versions(&config("auto", 800), Some(SAMPLE)).ok().unwrap();
    assert_eq!(v.minecraft_version, "1.21.50");
    assert_eq!(v.protocol_version, 800);
    let v = resolve_versions(&config("1.0", 0), Some("MCPE;x;12")).ok().unwrap();
    assert_eq!(v.minecraft_version, "1.0");
    assert_eq!(v.protocol_version, 12);
}

#[test]
fn each_version_error_has_its_input() {
    assert_eq!(resolve_versions(&config("auto", 766), None).err(), Some(VersionError::MotdUnavailable));
    assert_eq!(
        resolve_versions(&config("auto", 766), Some("MCPE;x;766")).err(),
        Some(VersionError::MinecraftVersionMissing)
    );
    assert_eq!(
        resolve_versions(&config("auto", -1), Some("MCPE;x;abc;1.2")).err(),
        Some(VersionError::ProtocolVersionMissing)
    );
    assert_eq!(
        resolve_versions(&config("1.2", -1), Some("MCPE;x")).err(),
        Some(VersionError::ProtocolVersionMissing)
    );
}

#[test]
fn law_detected_versions_match_parsed_motd() {
    let parsed = parse_server_motd(SAMPLE).unwrap();
    let resolved = resolve_versions(&config("auto", -1), Some(SAMPLE)).ok().unwrap();
    assert_eq!(resolved.minecraft_version, parsed.minecraft_version);
    assert_eq!(resolved.protocol_version as i16, parsed.protocol_version);
}

#[test]
fn minus_zero_protocol_is_an_i16_but_no_u16() {
    let motd = "MCPE;S;-0;1.0;0;1;1;W;Survival;1;1;1";
    assert_eq!(parse_server_motd(motd).unwrap().protocol_version, 0);
    assert_eq!(
        resolve_versions(&config("auto", -1), Some(motd)).err(),
        Some(VersionError::ProtocolVersionMissing)
    );
}
