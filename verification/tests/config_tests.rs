use minecraft_bedrock_hibernation::config::{
    bedrock_file_path_for, default_bedrock_file_path, default_bedrock_server_port,
    default_hibernating_motd, default_port, default_protocol_version,
    default_stop_empty_server_after_seconds, default_version, Config,
};
use minecraft_bedrock_hibernation::config_manager::advertisement::{get_advertisement, Gamemode};
use minecraft_bedrock_hibernation::config_manager::config::{default_config, Config as ManagerConfig};

#[test]
fn defaults_match_the_documented_configuration() {
    assert_eq!(default_port(), 19132);
    assert_eq!(default_bedrock_server_port(), 19134);
    assert_eq!(default_protocol_version(), -1);
    assert_eq!(default_version(), "auto");
    assert_eq!(default_hibernating_motd(), "Server is Hibernating");
    assert_eq!(default_stop_empty_server_after_seconds(), 60);
}

#[test]
fn default_config_uses_every_default() {
    let c = Config::default();
    assert_eq!(c.port, 19132);
    assert_eq!(c.bedrock_server_port, 19134);
    assert_eq!(c.protocol_version, -1);
    assert_eq!(c.version, "auto");
    assert_eq!(c.hibernating_motd, "Server is Hibernating");
    assert_eq!(c.bedrock_file_path, default_bedrock_file_path());
    assert_eq!(c.stop_empty_server_after_seconds, 60);
}

#[test]
fn bedrock_path_depends_on_the_platform() {
    assert_eq!(bedrock_file_path_for('\\'), ".\\bedrock_server.exe");
    assert_eq!(bedrock_file_path_for('/'), "./bedrock_server");
    let expected = if std::path::MAIN_SEPARATOR == '\\' { ".\\bedrock_server.exe" } else { "./bedrock_server" };
    assert_eq!(default_bedrock_file_path(), expected);
}

#[test]
fn manager_default_config_values() {
    let c = default_config();
    assert_eq!(c.hibernating_motd, "Server is Hibernating");
    assert_eq!(c.port, 19132);
    assert_eq!(c.protocol_version, -1);
    assert_eq!(c.version, "auto");
    assert_eq!(c.bedrock_file_path, "./bedrock_server");
    assert_eq!(c.bedrock_server_port, 19134);
    assert_eq!(c.stop_empty_server_after_seconds, 60);
}

#[test]
fn gamemode_names() {
    assert_eq!(Gamemode::Survival.as_str(), "Survival");
    assert_eq!(Gamemode::Creative.as_str(), "Creative");
    assert_eq!(Gamemode::Adventure.as_str(), "Adventure");
    assert_eq!(Gamemode::Spectator.as_str(), "Spectator");
}

fn manager(protocol: i16) -> ManagerConfig {
    ManagerConfig { protocol_version: protocol, port: 19200, ..default_config() }
}

#[test]
fn advertisement_uses_configured_protocol_when_positive() {
    let m = get_advertisement(manager(766), Some(1));
    assert_eq!(m.protocol, 766);
    assert_eq!(m.name, "Server is Hibernating");
    assert_eq!(m.version, "auto");
    assert_eq!(m.max_players, 2);
    assert_eq!(m.gamemode, Gamemode::Creative);
    assert_eq!(m.port, 19200);
}

#[test]
fn advertisement_falls_back_to_known_protocol_then_zero() {
    assert_eq!(get_advertisement(manager(-1), Some(924)).protocol, 924);
    assert_eq!(get_advertisement(manager(0), None).protocol, 0);
}
