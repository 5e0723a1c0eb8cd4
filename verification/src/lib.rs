//! Verified core of a remote Neovim-over-SSH launcher: saved-session
//! bookkeeping, remote command construction, platform detection and the
//! decision logic of the connect and bootstrap flows.

pub mod text;
pub mod platform;
pub mod cli;
pub mod session;
pub mod ssh;
pub mod completer;
pub mod github;
pub mod prompt;
pub mod server;
pub mod bootstrap;
pub mod connect;
