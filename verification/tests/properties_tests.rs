use minecraft_bedrock_hibernation::properties::set_server_port;

#[test]
fn replaces_existing_port_line() {
    let input = "# comment\nserver-name=Dedicated Server\nserver-port=19132\nlevel-name=Bedrock level\n";
    assert_eq!(
        set_server_port(input, 19134),
        "# comment\nserver-name=Dedicated Server\nserver-port=19134\nlevel-name=Bedrock level\n"
    );
}

#[test]
fn appends_port_line_when_missing() {
    assert_eq!(set_server_port("gamemode=survival", 19134), "gamemode=survival\nserver-port=19134\n");
}

#[test]
fn empty_file_gets_only_port_line() {
    assert_eq!(set_server_port("", 19134), "server-port=19134\n");
}

#[test]
fn key_whitespace_and_colon_separator_are_recognised() {
    assert_eq!(set_server_port("  server-port : 1\nx=y\n", 7), "server-port=7\nx=y\n");
    assert_eq!(set_server_port("\tserver-port\t=19132", 19135), "server-port=19135\n");
}

#[test]
fn comments_are_not_settings() {
    assert_eq!(
        set_server_port("#server-port=1\n!server-port=2\n", 3),
        "#server-port=1\n!server-port=2\nserver-port=3\n"
    );
}

#[test]
fn only_first_port_line_is_replaced() {
    assert_eq!(
        set_server_port("server-port=1\nserver-port=2\n", 5),
        "server-port=5\nserver-port=2\n"
    );
}

#[test]
fn crlf_line_endings_become_lf() {
    assert_eq!(set_server_port("a=b\r\nserver-port=1\r\n", 9), "a=b\nserver-port=9\n");
}

#[test]
fn similar_keys_are_not_the_port() {
    assert_eq!(
        set_server_port("server-portv6=19133\nserver-port\n", 19134),
        "server-portv6=19133\nserver-port\nserver-port=19134\n"
    );
}

#[test]
fn first_separator_decides_the_key() {
    // the key of this line is "server-port:x", not "server-port"
    assert_eq!(
        set_server_port("server-port:x=1\n", 2),
        "server-port=2\n"
    );
    assert_eq!(
        set_server_port("a=server-port=1\n", 2),
        "a=server-port=1\nserver-port=2\n"
    );
}

#[test]
fn extreme_ports_are_written_in_decimal() {
    assert_eq!(set_server_port("", 0), "server-port=0\n");
    assert_eq!(set_server_port("", 65535), "server-port=65535\n");
    assert_eq!(set_server_port("", 10), "server-port=10\n");
}

#[test]
fn blank_lines_are_kept() {
    assert_eq!(set_server_port("\n\n  \nk=v\n", 1), "\n\n  \nk=v\nserver-port=1\n");
}

#[test]
fn law_setting_port_twice_changes_nothing() {
    let inputs = ["", "a=b\nserver-port=1\n", "x\n\n#c\n", "server-port : 3\nserver-port=4"];
    for input in inputs {
        let once = set_server_port(input, 19134);
        let twice = set_server_port(&once, 19134);
        assert_eq!(once, twice);
    }
}

#[test]
fn law_port_reads_back() {
    let out = set_server_port("level-name=x\nserver-port = 1\n", 4242);
    let line = out.lines().find(|l| l.starts_with("server-port")).unwrap();
    let value = line.split('=').nth(1).unwrap().trim();
    assert_eq!(value.parse::<u16>().unwrap(), 4242);
}

#[test]
fn unicode_whitespace_is_trimmed() {
    assert_eq!(set_server_port("\u{3000}server-port\u{a0}=1\n", 2), "server-port=2\n");
}

#[test]
fn law_other_lines_are_kept_in_place() {
    let input = "a=1\n#c\nserver-port=3\n\nb : 2\n";
    let out = set_server_port(input, 19134);
    let before: Vec<&str> = input.lines().collect();
    let after: Vec<&str> = out.lines().collect();
    assert_eq!(before.len(), after.len());
    for i in 0..before.len() {
        if i != 2 {
            assert_eq!(before[i], after[i]);
        }
    }
    assert_eq!(after[2], "server-port=19134");
}

#[test]
fn law_idempotent_with_carriage_return_on_port_line() {
    let once = set_server_port("a=b\nserver-port=1\r", 19134);
    assert_eq!(once, "a=b\nserver-port=19134\n");
    assert_eq!(set_server_port(&once, 19134), once);
}

#[test]
fn stray_carriage_return_on_kept_line_is_dropped_on_reread() {
    let once = set_server_port("a\r", 5);
    assert_eq!(once, "a\r\nserver-port=5\n");
    assert_eq!(set_server_port(&once, 5), "a\nserver-port=5\n");
}
