//! The command-line interface: what the user asked for.
//!
//! These are the parsed forms of the arguments; parsing itself belongs to
//! the program around the library.

use vstd::prelude::*;
use crate::text::{clone_opt, opt_view};

verus! {

/// Parsed command line: an optional subcommand, else the connect options.
pub struct Cli {
    pub command: Option<Cmd>,
    pub connect: ConnectArgs,
}

/// Subcommands.
pub enum Cmd {
    /// Manage saved sessions.
    Session { action: SessionAction },
}

/// Actions on the saved sessions.
pub enum SessionAction {
    /// List all saved sessions.
    List,
    /// Add a session manually.
    Add {
        host: String,
        dir: String,
        name: Option<String>,
        port: u16,
        server_path: String,
        sync_config: bool,
    },
    /// Remove a session, given by index, name, or `host:dir`.
    Rm { target: String },
}

/// Options for connecting to a remote host.
pub struct ConnectArgs {
    /// Remote host in `[user@]host` form, or a saved session's index or name.
    pub host: Option<String>,
    /// TCP port used for the nvim socket.
    pub port: u16,
    /// Path on the remote where the server binary is installed.
    pub server_path: String,
    /// Ask for a directory even if sessions are saved for this host.
    pub new_session: bool,
    /// Do not save this connection as a session.
    pub no_save_session: bool,
    /// Sync the local nvim config to the remote before connecting.
    pub sync_config: bool,
    /// Skip config sync even if the session has it enabled.
    pub no_sync_config: bool,
    /// Local nvim config directory to sync.
    pub local_config: Option<String>,
    /// Remote nvim config directory to sync to.
    pub remote_config: Option<String>,
}

/// The contents of `ConnectArgs`.
pub struct ArgsView {
    pub host: Option<Seq<char>>,
    pub port: u16,
    pub server_path: Seq<char>,
    pub new_session: bool,
    pub no_save_session: bool,
    pub sync_config: bool,
    pub no_sync_config: bool,
    pub local_config: Option<Seq<char>>,
    pub remote_config: Option<Seq<char>>,
}

impl View for ConnectArgs {
    type V = ArgsView;

    open spec fn view(&self) -> ArgsView {
        ArgsView {
            host: opt_view(self.host),
            port: self.port,
            server_path: self.server_path@,
            new_session: self.new_session,
            no_save_session: self.no_save_session,
            sync_config: self.sync_config,
            no_sync_config: self.no_sync_config,
            local_config: opt_view(self.local_config),
            remote_config: opt_view(self.remote_config),
        }
    }
}

impl Clone for ConnectArgs {
    fn clone(&self) -> (r: Self)
        ensures
            r@ == self@,
    {
        ConnectArgs {
            host: clone_opt(&self.host),
            port: self.port,
            server_path: self.server_path.clone(),
            new_session: self.new_session,
            no_save_session: self.no_save_session,
            sync_config: self.sync_config,
            no_sync_config: self.no_sync_config,
            local_config: clone_opt(&self.local_config),
            remote_config: clone_opt(&self.remote_config),
        }
    }
}

} // verus!
