//! Shared constants and remote platform detection.

use vstd::prelude::*;
use crate::text::{all_ws, lemma_trim_surrounding, str_eq, trim, trim_spec};

verus! {

/// TCP port on which the remote Neovim listens by default.
pub const DEFAULT_PORT: u16 = 7777;

/// Where the server binary is installed on the remote by default.
pub const DEFAULT_SERVER_PATH: &'static str = "~/.local/bin/rnvim-server";

/// The repository whose releases carry the server binaries.
pub const GITHUB_REPO: &'static str = "GNITOAHC/remote-ssh.nvim";

/// Version of this package.
pub const VERSION: &'static str = "0.1.0";

/// Base URL of the GitHub REST API.
pub const GITHUB_API_BASE: &'static str = "https://api.github.com";

/// Release asset suffix for a trimmed `uname -sm` string.
pub open spec fn platform_spec(s: Seq<char>) -> Option<Seq<char>> {
    let t = trim_spec(s);
    if t == "Linux x86_64"@ {
        Some("linux-x86_64"@)
    } else if t == "Linux aarch64"@ {
        Some("linux-aarch64"@)
    } else if t == "Darwin x86_64"@ {
        Some("darwin-x86_64"@)
    } else if t == "Darwin arm64"@ {
        Some("darwin-aarch64"@)
    } else {
        None
    }
}

/// Maps `uname -sm` output to the release asset suffix.
pub fn platform_from_uname(s: &str) -> (r: Option<&'static str>)
    ensures
        match r {
            Some(p) => platform_spec(s@) == Some(p@),
            None => platform_spec(s@) is None,
        },
{
    let t = trim(s);
    if str_eq(t, "Linux x86_64") {
        Some("linux-x86_64")
    } else if str_eq(t, "Linux aarch64") {
        Some("linux-aarch64")
    } else if str_eq(t, "Darwin x86_64") {
        Some("darwin-x86_64")
    } else if str_eq(t, "Darwin arm64") {
        Some("darwin-aarch64")
    } else {
        None
    }
}

/// Platform detection ignores whitespace around the `uname -sm` output,
/// such as its trailing newline.
pub proof fn lemma_platform_ignores_padding(w1: Seq<char>, s: Seq<char>, w2: Seq<char>)
    requires
        all_ws(w1),
        all_ws(w2),
    ensures
        platform_spec(w1 + s + w2) == platform_spec(s),
{
    lemma_trim_surrounding(w1, s, w2);
}

/// Exactly four platforms have a server binary: Linux and macOS, each on
/// x86_64 and 64-bit ARM.
pub proof fn lemma_supported_platforms(s: Seq<char>)
    ensures
        platform_spec(s) is Some <==> (trim_spec(s) == "Linux x86_64"@ || trim_spec(s)
            == "Linux aarch64"@ || trim_spec(s) == "Darwin x86_64"@ || trim_spec(s)
            == "Darwin arm64"@),
{
}

} // verus!
