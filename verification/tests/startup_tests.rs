use minecraft_bedrock_hibernation::startup::get_startup_message;

#[test]
fn startup_banner_has_the_version() {
    let m = get_startup_message("0.3.1");
    let expected = "\n __  __ ____  _   _\n|  \\/  | __ )| | | |\n| |\\/| |  _ \\| |_| |\n| |  | | |_) |  _  |\n|_|  |_|____/|_| |_| 0.3.1\n\nMinecraft Bedrock (server) Hibernation\n---------------------------------------\nServer is hibernating, join to start it up.\n";
    assert_eq!(m, expected);
}
