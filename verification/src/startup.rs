//! The banner that the proxy prints when it starts and whenever the server
//! goes back to sleep.
use vstd::prelude::*;
use crate::text::{append_chars, chars_of, string_from_chars};

verus! {

broadcast use vstd::string::group_string_axioms;

/// The logo that the version follows.
pub open spec fn banner_logo() -> Seq<char> {
    "\n __  __ ____  _   _\n|  \\/  | __ )| | | |\n| |\\/| |  _ \\| |_| |\n| |  | | |_) |  _  |\n|_|  |_|____/|_| |_| "@
}

/// What follows the version: the name of the program and how to wake the
/// server.
pub open spec fn banner_tail() -> Seq<char> {
    "\n\nMinecraft Bedrock (server) Hibernation\n---------------------------------------\nServer is hibernating, join to start it up.\n"@
}

/// The banner for the proxy of version `version`: the logo with the version
/// after it, the name of the program, and how to wake the server.
pub open spec fn startup_banner(version: Seq<char>) -> Seq<char> {
    banner_logo() + version + banner_tail()
}

/// The banner carries the version whole and unchanged: it is the fixed logo
/// text, then exactly `version`, then the fixed tail, so its length is the
/// fixed length plus the length of `version`.
pub proof fn law_banner_carries_version(version: Seq<char>)
    ensures
        startup_banner(version).len() == banner_logo().len() + version.len() + banner_tail().len(),
        startup_banner(version).take(banner_logo().len() as int) == banner_logo(),
        startup_banner(version).subrange(banner_logo().len() as int, (banner_logo().len() + version.len()) as int) == version,
        startup_banner(version).skip((banner_logo().len() + version.len()) as int) == banner_tail(),
{
    let b = startup_banner(version);
    assert(b.take(banner_logo().len() as int) =~= banner_logo());
    assert(b.subrange(banner_logo().len() as int, (banner_logo().len() + version.len()) as int) =~= version);
    assert(b.skip((banner_logo().len() + version.len()) as int) =~= banner_tail());
}

/// Builds the startup banner for the proxy of version `version`.
pub fn get_startup_message(version: &str) -> (m: String)
    ensures
        m@ == startup_banner(version@),
        m@.len() == banner_logo().len() + version@.len() + banner_tail().len(),
        m@.take(banner_logo().len() as int) == banner_logo(),
        m@.subrange(banner_logo().len() as int, (banner_logo().len() + version@.len()) as int) == version@,
        m@.skip((banner_logo().len() + version@.len()) as int) == banner_tail(),
{
    proof {
        law_banner_carries_version(version@);
    }
    let mut out = chars_of("\n __  __ ____  _   _\n|  \\/  | __ )| | | |\n| |\\/| |  _ \\| |_| |\n| |  | | |_) |  _  |\n|_|  |_|____/|_| |_| ");
    append_chars(&mut out, &chars_of(version));
    append_chars(&mut out, &chars_of("\n\nMinecraft Bedrock (server) Hibernation\n---------------------------------------\nServer is hibernating, join to start it up.\n"));
    string_from_chars(out.as_slice())
}

} // verus!
