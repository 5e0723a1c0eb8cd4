//! The connect flow: from the command line to a local Neovim attached to the
//! remote one.
//!
//! The flow alternates work outside the library (SSH, prompts, the session
//! file, running nvim) with decisions. The decisions are a state machine:
//! `ConnectFlow::step` takes what the last action produced and returns the
//! next action; the caller performs it and reports back.

use vstd::prelude::*;
use crate::cli::{ArgsView, Cli, Cmd, ConnectArgs, SessionAction};
use crate::prompt::{session_menu, session_menu_spec};
use crate::session::{
    by_recent, resolve, resolve_spec, sessions_for_host, views, with_host, Session, SessionView,
};
use crate::text::{clone_opt, decimal, decimal_spec, opt_str_view, opt_view};

verus! {

/// The local nvim config directory: `$HOME/.config/nvim`.
pub open spec fn default_nvim_config_dir_spec(home: Seq<char>) -> Seq<char> {
    home + "/.config/nvim"@
}

/// The local nvim config directory, given `$HOME` (empty when unset).
pub fn default_nvim_config_dir(home: &str) -> (r: String)
    ensures
        r@ == default_nvim_config_dir_spec(home@),
{
    let mut r = home.to_string();
    r.append("/.config/nvim");
    r
}

/// The config directories to sync for this run, if syncing is on.
/// `--no-sync-config` wins over `--sync-config`, which wins over the session's
/// preference; each path comes from the command line, else the session, else
/// the default (`default_local` for the local one).
pub open spec fn resolve_sync_spec(
    args: ArgsView,
    session_sync: bool,
    session_local: Option<Seq<char>>,
    session_remote: Option<Seq<char>>,
    default_local: Seq<char>,
) -> Option<(Seq<char>, Seq<char>)> {
    if args.no_sync_config {
        None
    } else if !args.sync_config && !session_sync {
        None
    } else {
        let local = match args.local_config {
            Some(l) => l,
            None => match session_local {
                Some(l) => l,
                None => default_local,
            },
        };
        let remote = match args.remote_config {
            Some(r) => r,
            None => match session_remote {
                Some(r) => r,
                None => "~/.config/nvim"@,
            },
        };
        Some((local, remote))
    }
}

/// Decides whether to sync the nvim config, and between which directories.
pub fn resolve_sync(
    args: &ConnectArgs,
    session_sync: bool,
    session_local: Option<&str>,
    session_remote: Option<&str>,
    default_local: &str,
) -> (r: Option<(String, String)>)
    ensures
        match r {
            Some((l, m)) => resolve_sync_spec(
                args@,
                session_sync,
                opt_str_view(session_local),
                opt_str_view(session_remote),
                default_local@,
            ) == Some((l@, m@)),
            None => resolve_sync_spec(
                args@,
                session_sync,
                opt_str_view(session_local),
                opt_str_view(session_remote),
                default_local@,
            ) is None,
        },
{
    if args.no_sync_config {
        return None;
    }
    if !args.sync_config && !session_sync {
        return None;
    }
    let local = match &args.local_config {
        Some(l) => l.clone(),
        None => match session_local {
            Some(l) => l.to_string(),
            None => default_local.to_string(),
        },
    };
    let remote = match &args.remote_config {
        Some(r) => r.clone(),
        None => match session_remote {
            Some(r) => r.to_string(),
            None => "~/.config/nvim".to_string(),
        },
    };
    Some((local, remote))
}

/// Where a connection stands.
#[derive(Clone, Copy)]
pub enum ConnectStage {
    Start,
    ProbingRsync,
    Connecting,
    Bootstrapping,
    MarkingSaved,
    LoadingSessions,
    Picking,
    MarkingPicked,
    PromptingDir,
    PromptingSync,
    Noting,
    PromptingName,
    Saving,
    Syncing,
    Warning,
    StartingServer,
    Forwarding,
    Settling,
    RunningNvim,
    ClosingTunnel,
    Finished,
}

/// A connection in progress.
pub struct ConnectFlow {
    args: ConnectArgs,
    default_local: String,
    target: String,
    port: u16,
    server_path: String,
    saved: bool,
    stage: ConnectStage,
    has_rsync: bool,
    existing: Vec<Session>,
    dir: String,
    session_sync: bool,
    session_local: Option<String>,
    session_remote: Option<String>,
    want_sync: bool,
    exit_error: Option<String>,
}

/// The contents of a `ConnectFlow`.
pub struct FlowView {
    /// The connect options from the command line.
    pub args: ArgsView,
    /// The local nvim config directory used when none is given.
    pub default_local: Seq<char>,
    /// The host connected to.
    pub target: Seq<char>,
    /// The port of the nvim socket.
    pub port: u16,
    /// Where the server binary lives on the remote.
    pub server_path: Seq<char>,
    /// Whether a saved session is being resumed.
    pub saved: bool,
    pub stage: ConnectStage,
    /// Whether rsync is available locally.
    pub has_rsync: bool,
    /// The saved sessions for the host, most recent first.
    pub existing: Seq<SessionView>,
    /// The remote working directory, once known.
    pub dir: Seq<char>,
    /// The sync preference and config paths of the chosen session.
    pub session_sync: bool,
    pub session_local: Option<Seq<char>>,
    pub session_remote: Option<Seq<char>>,
    /// The answer to the sync question for a new session.
    pub want_sync: bool,
    /// The error to report once the tunnel is closed.
    pub exit_error: Option<Seq<char>>,
}

impl View for ConnectFlow {
    type V = FlowView;

    closed spec fn view(&self) -> FlowView {
        FlowView {
            args: self.args@,
            default_local: self.default_local@,
            target: self.target@,
            port: self.port,
            server_path: self.server_path@,
            saved: self.saved,
            stage: self.stage,
            has_rsync: self.has_rsync,
            existing: views(self.existing@),
            dir: self.dir@,
            session_sync: self.session_sync,
            session_local: opt_view(self.session_local),
            session_remote: opt_view(self.session_remote),
            want_sync: self.want_sync,
            exit_error: opt_view(self.exit_error),
        }
    }
}

/// What the caller reports after an action.
pub enum ConnectEvent {
    /// Start the flow.
    Begin,
    /// Whether rsync runs on this machine.
    RsyncProbed(bool),
    /// The last action succeeded.
    Done,
    /// The last action failed, with this message.
    Failed(String),
    /// The saved sessions, as read from disk (most recent first).
    Sessions(Vec<Session>),
    /// The picker's answer: a session's index, or none for a new session.
    Picked(Option<usize>),
    /// The working directory the user typed.
    Directory(String),
    /// Whether the user wants config sync for the new session.
    SyncAnswer(bool),
    /// The optional name the user gave the new session.
    Name(Option<String>),
    /// nvim exited; whether it succeeded, and its exit status as text.
    NvimExited { success: bool, status: String },
}

/// The contents of a `ConnectEvent`.
pub enum ConnectEventView {
    Begin,
    RsyncProbed(bool),
    Done,
    Failed(Seq<char>),
    Sessions(Seq<SessionView>),
    Picked(Option<usize>),
    Directory(Seq<char>),
    SyncAnswer(bool),
    Name(Option<Seq<char>>),
    NvimExited { success: bool, status: Seq<char> },
}

impl View for ConnectEvent {
    type V = ConnectEventView;

    open spec fn view(&self) -> ConnectEventView {
        match self {
            ConnectEvent::Begin => ConnectEventView::Begin,
            ConnectEvent::RsyncProbed(b) => ConnectEventView::RsyncProbed(*b),
            ConnectEvent::Done => ConnectEventView::Done,
            ConnectEvent::Failed(m) => ConnectEventView::Failed(m@),
            ConnectEvent::Sessions(v) => ConnectEventView::Sessions(views(v@)),
            ConnectEvent::Picked(c) => ConnectEventView::Picked(*c),
            ConnectEvent::Directory(d) => ConnectEventView::Directory(d@),
            ConnectEvent::SyncAnswer(b) => ConnectEventView::SyncAnswer(*b),
            ConnectEvent::Name(n) => ConnectEventView::Name(opt_view(*n)),
            ConnectEvent::NvimExited { success, status } => ConnectEventView::NvimExited {
                success: *success,
                status: status@,
            },
        }
    }
}

/// What the caller is to do next.
pub enum ConnectAction {
    /// Check whether rsync runs locally; report `RsyncProbed`.
    ProbeRsync,
    /// Open the SSH connection (and the HTTP client); report `Done`.
    OpenConnection { target: String },
    /// Make sure the server binary is installed at this path; report `Done`.
    EnsureServer { server_path: String },
    /// Mark the saved session for this host and directory as used now.
    MarkUsed { host: String, dir: String },
    /// Read the saved sessions; report `Sessions`.
    LoadSessions,
    /// Ask the user to pick among these entries; report `Picked`.
    PickSession { items: Vec<String> },
    /// Ask for the remote working directory; report `Directory`.
    PromptDirectory,
    /// Ask whether to sync the config; report `SyncAnswer`.
    PromptSync,
    /// Ask for an optional session name; report `Name`.
    PromptName,
    /// Print this message; report `Done`.
    Notice { message: String },
    /// Save this connection as a session at the current time; report `Done`.
    SaveSession {
        host: String,
        dir: String,
        port: u16,
        server_path: String,
        name: Option<String>,
        sync_config: bool,
        local_config: Option<String>,
        remote_config: Option<String>,
    },
    /// Mirror the local config directory into the remote one; report `Done`.
    SyncConfig { local: String, remote: String },
    /// Start the server on the remote in the background; report `Done`.
    StartServer { server_path: String, port: u16, working_dir: String },
    /// Open the port-forwarding tunnel; report `Done`.
    Forward { port: u16 },
    /// Give the remote nvim a moment to listen; report `Done`.
    Settle,
    /// Run the local nvim UI against this address; report `NvimExited`.
    RunNvim { server_addr: String },
    /// Stop the tunnel; report `Done`.
    CloseTunnel,
    /// The flow is over, with an error message or none.
    Finish { error: Option<String> },
}

/// The contents of a `ConnectAction`.
pub enum ConnectActionView {
    ProbeRsync,
    OpenConnection { target: Seq<char> },
    EnsureServer { server_path: Seq<char> },
    MarkUsed { host: Seq<char>, dir: Seq<char> },
    LoadSessions,
    PickSession { items: Seq<Seq<char>> },
    PromptDirectory,
    PromptSync,
    PromptName,
    Notice { message: Seq<char> },
    SaveSession {
        host: Seq<char>,
        dir: Seq<char>,
        port: u16,
        server_path: Seq<char>,
        name: Option<Seq<char>>,
        sync_config: bool,
        local_config: Option<Seq<char>>,
        remote_config: Option<Seq<char>>,
    },
    SyncConfig { local: Seq<char>, remote: Seq<char> },
    StartServer { server_path: Seq<char>, port: u16, working_dir: Seq<char> },
    Forward { port: u16 },
    Settle,
    RunNvim { server_addr: Seq<char> },
    CloseTunnel,
    Finish { error: Option<Seq<char>> },
}

impl View for ConnectAction {
    type V = ConnectActionView;

    open spec fn view(&self) -> ConnectActionView {
        match self {
            ConnectAction::ProbeRsync => ConnectActionView::ProbeRsync,
            ConnectAction::OpenConnection { target } => ConnectActionView::OpenConnection {
                target: target@,
            },
            ConnectAction::EnsureServer { server_path } => ConnectActionView::EnsureServer {
                server_path: server_path@,
            },
            ConnectAction::MarkUsed { host, dir } => ConnectActionView::MarkUsed {
                host: host@,
                dir: dir@,
            },
            ConnectAction::LoadSessions => ConnectActionView::LoadSessions,
            ConnectAction::PickSession { items } => ConnectActionView::PickSession {
                items: items@.map_values(|x: String| x@),
            },
            ConnectAction::PromptDirectory => ConnectActionView::PromptDirectory,
            ConnectAction::PromptSync => ConnectActionView::PromptSync,
            ConnectAction::PromptName => ConnectActionView::PromptName,
            ConnectAction::Notice { message } => ConnectActionView::Notice { message: message@ },
            ConnectAction::SaveSession {
                host,
                dir,
                port,
                server_path,
                name,
                sync_config,
                local_config,
                remote_config,
            } => ConnectActionView::SaveSession {
                host: host@,
                dir: dir@,
                port: *port,
                server_path: server_path@,
                name: opt_view(*name),
                sync_config: *sync_config,
                local_config: opt_view(*local_config),
                remote_config: opt_view(*remote_config),
            },
            ConnectAction::SyncConfig { local, remote } => ConnectActionView::SyncConfig {
                local: local@,
                remote: remote@,
            },
            ConnectAction::StartServer { server_path, port, working_dir } =>
                ConnectActionView::StartServer {
                server_path: server_path@,
                port: *port,
                working_dir: working_dir@,
            },
            ConnectAction::Forward { port } => ConnectActionView::Forward { port: *port },
            ConnectAction::Settle => ConnectActionView::Settle,
            ConnectAction::RunNvim { server_addr } => ConnectActionView::RunNvim {
                server_addr: server_addr@,
            },
            ConnectAction::CloseTunnel => ConnectActionView::CloseTunnel,
            ConnectAction::Finish { error } => ConnectActionView::Finish { error: opt_view(*error) },
        }
    }
}

/// Printed when a new session cannot offer config sync.
pub open spec fn no_rsync_note() -> Seq<char> {
    "Note: rsync not found on this machine \u{2014} config sync unavailable."@
}

/// Printed when sync is wanted but rsync is missing.
pub open spec fn no_rsync_warning() -> Seq<char> {
    "Warning: rsync not found \u{2014} skipping config sync. Install rsync or pass --no-sync-config to suppress this warning."@
}

/// The error for an event that does not answer the last action.
pub open spec fn out_of_order_error() -> Seq<char> {
    "connect: event does not answer the last action"@
}

/// The address the local nvim attaches to.
pub open spec fn server_addr_spec(port: u16) -> Seq<char> {
    "localhost:"@ + decimal_spec(port as nat)
}

/// The flow ends, with an error or none.
pub open spec fn finish_spec(f: FlowView, error: Option<Seq<char>>) -> (FlowView, ConnectActionView) {
    (FlowView { stage: ConnectStage::Finished, ..f }, ConnectActionView::Finish { error })
}

/// The server is started in the working directory.
pub open spec fn start_server_spec(f: FlowView) -> (FlowView, ConnectActionView) {
    (
        FlowView { stage: ConnectStage::StartingServer, ..f },
        ConnectActionView::StartServer {
            server_path: f.server_path,
            port: f.port,
            working_dir: f.dir,
        },
    )
}

/// Once the working directory is known: sync the config when it is wanted and
/// rsync is available, warn when it is wanted but rsync is missing, then
/// start the server.
pub open spec fn after_dir_spec(f: FlowView) -> (FlowView, ConnectActionView) {
    match resolve_sync_spec(f.args, f.session_sync, f.session_local, f.session_remote, f.default_local) {
        Some((l, r)) => if f.has_rsync {
            (
                FlowView { stage: ConnectStage::Syncing, ..f },
                ConnectActionView::SyncConfig { local: l, remote: r },
            )
        } else {
            (
                FlowView { stage: ConnectStage::Warning, ..f },
                ConnectActionView::Notice { message: no_rsync_warning() },
            )
        },
        None => start_server_spec(f),
    }
}

/// The working directory and sync settings of the picked session.
pub open spec fn with_picked(f: FlowView, s: SessionView) -> FlowView {
    FlowView {
        dir: s.directory,
        session_sync: s.sync_config,
        session_local: s.local_config,
        session_remote: s.remote_config,
        ..f
    }
}

/// One step of the connect flow.
///
/// rsync is probed, the connection opened and the server binary ensured.
/// A resumed session is marked used. Otherwise the host's saved sessions are
/// offered (unless `--new-session`); a picked one is marked used unless
/// `--no-save-session`; else the user types a directory and, unless
/// `--no-save-session`, is asked about sync (only when rsync is available)
/// and a name, and the session is saved. Then the config is synced when
/// wanted, the server started, the tunnel opened, nvim run, and the tunnel
/// closed after nvim exits; an unsuccessful exit is reported after that.
/// Any failure ends the flow with its message.
pub open spec fn connect_step_spec(f: FlowView, e: ConnectEventView) -> (FlowView, ConnectActionView) {
    match e {
        ConnectEventView::Failed(m) => finish_spec(f, Some(m)),
        _ => match (f.stage, e) {
            (ConnectStage::Start, ConnectEventView::Begin) => (
                FlowView { stage: ConnectStage::ProbingRsync, ..f },
                ConnectActionView::ProbeRsync,
            ),
            (ConnectStage::ProbingRsync, ConnectEventView::RsyncProbed(b)) => (
                FlowView { stage: ConnectStage::Connecting, has_rsync: b, ..f },
                ConnectActionView::OpenConnection { target: f.target },
            ),
            (ConnectStage::Connecting, ConnectEventView::Done) => (
                FlowView { stage: ConnectStage::Bootstrapping, ..f },
                ConnectActionView::EnsureServer { server_path: f.server_path },
            ),
            (ConnectStage::Bootstrapping, ConnectEventView::Done) => if f.saved {
                (
                    FlowView { stage: ConnectStage::MarkingSaved, ..f },
                    ConnectActionView::MarkUsed { host: f.target, dir: f.dir },
                )
            } else {
                (
                    FlowView { stage: ConnectStage::LoadingSessions, ..f },
                    ConnectActionView::LoadSessions,
                )
            },
            (ConnectStage::MarkingSaved, ConnectEventView::Done) => after_dir_spec(f),
            (ConnectStage::LoadingSessions, ConnectEventView::Sessions(all)) => {
                let ex = by_recent(with_host(all, f.target));
                if ex.len() > 0 && !f.args.new_session {
                    (
                        FlowView { stage: ConnectStage::Picking, existing: ex, ..f },
                        ConnectActionView::PickSession { items: session_menu_spec(ex) },
                    )
                } else {
                    (
                        FlowView { stage: ConnectStage::PromptingDir, existing: ex, ..f },
                        ConnectActionView::PromptDirectory,
                    )
                }
            },
            (ConnectStage::Picking, ConnectEventView::Picked(c)) => match c {
                Some(i) => if i < f.existing.len() {
                    let g = with_picked(f, f.existing[i as int]);
                    if !f.args.no_save_session {
                        (
                            FlowView { stage: ConnectStage::MarkingPicked, ..g },
                            ConnectActionView::MarkUsed { host: f.target, dir: g.dir },
                        )
                    } else {
                        after_dir_spec(g)
                    }
                } else {
                    (
                        FlowView { stage: ConnectStage::PromptingDir, ..f },
                        ConnectActionView::PromptDirectory,
                    )
                },
                None => (
                    FlowView { stage: ConnectStage::PromptingDir, ..f },
                    ConnectActionView::PromptDirectory,
                ),
            },
            (ConnectStage::MarkingPicked, ConnectEventView::Done) => after_dir_spec(f),
            (ConnectStage::PromptingDir, ConnectEventView::Directory(d)) => if f.args.no_save_session {
                after_dir_spec(
                    FlowView {
                        dir: d,
                        session_sync: false,
                        session_local: None,
                        session_remote: None,
                        ..f
                    },
                )
            } else if f.has_rsync {
                (
                    FlowView { stage: ConnectStage::PromptingSync, dir: d, ..f },
                    ConnectActionView::PromptSync,
                )
            } else {
                (
                    FlowView { stage: ConnectStage::Noting, dir: d, ..f },
                    ConnectActionView::Notice { message: no_rsync_note() },
                )
            },
            (ConnectStage::PromptingSync, ConnectEventView::SyncAnswer(b)) => (
                FlowView { stage: ConnectStage::PromptingName, want_sync: b, ..f },
                ConnectActionView::PromptName,
            ),
            (ConnectStage::Noting, ConnectEventView::Done) => (
                FlowView { stage: ConnectStage::PromptingName, want_sync: false, ..f },
                ConnectActionView::PromptName,
            ),
            (ConnectStage::PromptingName, ConnectEventView::Name(n)) => (
                FlowView {
                    stage: ConnectStage::Saving,
                    session_sync: f.want_sync,
                    session_local: f.args.local_config,
                    session_remote: f.args.remote_config,
                    ..f
                },
                ConnectActionView::SaveSession {
                    host: f.target,
                    dir: f.dir,
                    port: f.args.port,
                    server_path: f.args.server_path,
                    name: n,
                    sync_config: f.want_sync,
                    local_config: f.args.local_config,
                    remote_config: f.args.remote_config,
                },
            ),
            (ConnectStage::Saving, ConnectEventView::Done) => after_dir_spec(f),
            (ConnectStage::Syncing, ConnectEventView::Done) => start_server_spec(f),
            (ConnectStage::Warning, ConnectEventView::Done) => start_server_spec(f),
            (ConnectStage::StartingServer, ConnectEventView::Done) => (
                FlowView { stage: ConnectStage::Forwarding, ..f },
                ConnectActionView::Forward { port: f.port },
            ),
            (ConnectStage::Forwarding, ConnectEventView::Done) => (
                FlowView { stage: ConnectStage::Settling, ..f },
                ConnectActionView::Settle,
            ),
            (ConnectStage::Settling, ConnectEventView::Done) => (
                FlowView { stage: ConnectStage::RunningNvim, ..f },
                ConnectActionView::RunNvim { server_addr: server_addr_spec(f.port) },
            ),
            (ConnectStage::RunningNvim, ConnectEventView::NvimExited { success, status }) => (
                FlowView {
                    stage: ConnectStage::ClosingTunnel,
                    exit_error: if success {
                        None
                    } else {
                        Some("nvim exited: "@ + status)
                    },
                    ..f
                },
                ConnectActionView::CloseTunnel,
            ),
            (ConnectStage::ClosingTunnel, ConnectEventView::Done) => finish_spec(f, f.exit_error),
            _ => finish_spec(f, Some(out_of_order_error())),
        },
    }
}

/// The flow that resumes a saved session.
pub open spec fn flow_for_session_spec(s: SessionView, args: ArgsView, default_local: Seq<char>) -> FlowView {
    FlowView {
        args,
        default_local,
        target: s.host,
        port: s.port,
        server_path: s.server_path,
        saved: true,
        stage: ConnectStage::Start,
        has_rsync: false,
        existing: Seq::empty(),
        dir: s.directory,
        session_sync: s.sync_config,
        session_local: s.local_config,
        session_remote: s.remote_config,
        want_sync: false,
        exit_error: None,
    }
}

/// The flow that connects to a host by name.
pub open spec fn flow_for_host_spec(host: Seq<char>, args: ArgsView, default_local: Seq<char>) -> FlowView {
    FlowView {
        args,
        default_local,
        target: host,
        port: args.port,
        server_path: args.server_path,
        saved: false,
        stage: ConnectStage::Start,
        has_rsync: false,
        existing: Seq::empty(),
        dir: Seq::empty(),
        session_sync: false,
        session_local: None,
        session_remote: None,
        want_sync: false,
        exit_error: None,
    }
}

impl ConnectFlow {
    /// A flow that resumes the saved session `sess`.
    pub fn for_session(sess: &Session, args: ConnectArgs, default_local: &str) -> (r: ConnectFlow)
        ensures
            r@ == flow_for_session_spec(sess@, args@, default_local@),
    {
        let r = ConnectFlow {
            args,
            default_local: default_local.to_string(),
            target: sess.host.clone(),
            port: sess.port,
            server_path: sess.server_path.clone(),
            saved: true,
            stage: ConnectStage::Start,
            has_rsync: false,
            existing: Vec::new(),
            dir: sess.directory.clone(),
            session_sync: sess.sync_config,
            session_local: clone_opt(&sess.local_config),
            session_remote: clone_opt(&sess.remote_config),
            want_sync: false,
            exit_error: None,
        };
        assert(views(r.existing@) =~= Seq::<SessionView>::empty());
        r
    }

    /// A flow that connects to `host`.
    pub fn for_host(host: &str, args: ConnectArgs, default_local: &str) -> (r: ConnectFlow)
        ensures
            r@ == flow_for_host_spec(host@, args@, default_local@),
    {
        let port = args.port;
        let server_path = args.server_path.clone();
        let r = ConnectFlow {
            args,
            default_local: default_local.to_string(),
            target: host.to_string(),
            port,
            server_path,
            saved: false,
            stage: ConnectStage::Start,
            has_rsync: false,
            existing: Vec::new(),
            dir: String::new(),
            session_sync: false,
            session_local: None,
            session_remote: None,
            want_sync: false,
            exit_error: None,
        };
        assert(views(r.existing@) =~= Seq::<SessionView>::empty());
        r
    }

    /// Whether the flow has ended.
    pub fn is_finished(&self) -> (r: bool)
        ensures
            r == (self@.stage is Finished),
    {
        match self.stage {
            ConnectStage::Finished => true,
            _ => false,
        }
    }

    fn finish(&mut self, error: Option<String>) -> (r: ConnectAction)
        ensures
            (final(self)@, r@) == finish_spec(old(self)@, opt_view(error)),
    {
        self.stage = ConnectStage::Finished;
        ConnectAction::Finish { error }
    }

    fn start_server(&mut self) -> (r: ConnectAction)
        ensures
            (final(self)@, r@) == start_server_spec(old(self)@),
    {
        self.stage = ConnectStage::StartingServer;
        ConnectAction::StartServer {
            server_path: self.server_path.clone(),
            port: self.port,
            working_dir: self.dir.clone(),
        }
    }

    fn after_dir(&mut self) -> (r: ConnectAction)
        ensures
            (final(self)@, r@) == after_dir_spec(old(self)@),
    {
        let local: Option<&str> = match &self.session_local {
            Some(l) => Some(l.as_str()),
            None => None,
        };
        let remote: Option<&str> = match &self.session_remote {
            Some(r) => Some(r.as_str()),
            None => None,
        };
        match resolve_sync(&self.args, self.session_sync, local, remote, self.default_local.as_str()) {
            Some((l, r)) => {
                if self.has_rsync {
                    self.stage = ConnectStage::Syncing;
                    ConnectAction::SyncConfig { local: l, remote: r }
                } else {
                    self.stage = ConnectStage::Warning;
                    ConnectAction::Notice {
                        message: "Warning: rsync not found \u{2014} skipping config sync. Install rsync or pass --no-sync-config to suppress this warning.".to_string(),
                    }
                }
            },
            None => self.start_server(),
        }
    }

    /// Takes the outcome of the last action and returns the next one.
    pub fn step(&mut self, event: ConnectEvent) -> (r: ConnectAction)
        ensures
            (final(self)@, r@) == connect_step_spec(old(self)@, event@),
    {
        if let ConnectEvent::Failed(m) = event {
            return self.finish(Some(m));
        }
        match (self.stage, event) {
            (ConnectStage::Start, ConnectEvent::Begin) => {
                self.stage = ConnectStage::ProbingRsync;
                ConnectAction::ProbeRsync
            },
            (ConnectStage::ProbingRsync, ConnectEvent::RsyncProbed(b)) => {
                self.stage = ConnectStage::Connecting;
                self.has_rsync = b;
                ConnectAction::OpenConnection { target: self.target.clone() }
            },
            (ConnectStage::Connecting, ConnectEvent::Done) => {
                self.stage = ConnectStage::Bootstrapping;
                ConnectAction::EnsureServer { server_path: self.server_path.clone() }
            },
            (ConnectStage::Bootstrapping, ConnectEvent::Done) => {
                if self.saved {
                    self.stage = ConnectStage::MarkingSaved;
                    ConnectAction::MarkUsed { host: self.target.clone(), dir: self.dir.clone() }
                } else {
                    self.stage = ConnectStage::LoadingSessions;
                    ConnectAction::LoadSessions
                }
            },
            (ConnectStage::MarkingSaved, ConnectEvent::Done) => self.after_dir(),
            (ConnectStage::LoadingSessions, ConnectEvent::Sessions(all)) => {
                let ex = sessions_for_host(&all, self.target.as_str());
                if ex.len() > 0 && !self.args.new_session {
                    let items = session_menu(&ex);
                    self.stage = ConnectStage::Picking;
                    self.existing = ex;
                    ConnectAction::PickSession { items }
                } else {
                    self.stage = ConnectStage::PromptingDir;
                    self.existing = ex;
                    ConnectAction::PromptDirectory
                }
            },
            (ConnectStage::Picking, ConnectEvent::Picked(c)) => {
                match c {
                    Some(i) => {
                        if i < self.existing.len() {
                            let s = self.existing[i].clone();
                            self.dir = s.directory;
                            self.session_sync = s.sync_config;
                            self.session_local = s.local_config;
                            self.session_remote = s.remote_config;
                            if !self.args.no_save_session {
                                self.stage = ConnectStage::MarkingPicked;
                                ConnectAction::MarkUsed {
                                    host: self.target.clone(),
                                    dir: self.dir.clone(),
                                }
                            } else {
                                self.after_dir()
                            }
                        } else {
                            self.stage = ConnectStage::PromptingDir;
                            ConnectAction::PromptDirectory
                        }
                    },
                    None => {
                        self.stage = ConnectStage::PromptingDir;
                        ConnectAction::PromptDirectory
                    },
                }
            },
            (ConnectStage::MarkingPicked, ConnectEvent::Done) => self.after_dir(),
            (ConnectStage::PromptingDir, ConnectEvent::Directory(d)) => {
                self.dir = d;
                if self.args.no_save_session {
                    self.session_sync = false;
                    self.session_local = None;
                    self.session_remote = None;
                    self.after_dir()
                } else if self.has_rsync {
                    self.stage = ConnectStage::PromptingSync;
                    ConnectAction::PromptSync
                } else {
                    self.stage = ConnectStage::Noting;
                    ConnectAction::Notice {
                        message: "Note: rsync not found on this machine \u{2014} config sync unavailable.".to_string(),
                    }
                }
            },
            (ConnectStage::PromptingSync, ConnectEvent::SyncAnswer(b)) => {
                self.stage = ConnectStage::PromptingName;
                self.want_sync = b;
                ConnectAction::PromptName
            },
            (ConnectStage::Noting, ConnectEvent::Done) => {
                self.stage = ConnectStage::PromptingName;
                self.want_sync = false;
                ConnectAction::PromptName
            },
            (ConnectStage::PromptingName, ConnectEvent::Name(n)) => {
                self.stage = ConnectStage::Saving;
                self.session_sync = self.want_sync;
                self.session_local = clone_opt(&self.args.local_config);
                self.session_remote = clone_opt(&self.args.remote_config);
                ConnectAction::SaveSession {
                    host: self.target.clone(),
                    dir: self.dir.clone(),
                    port: self.args.port,
                    server_path: self.args.server_path.clone(),
                    name: n,
                    sync_config: self.want_sync,
                    local_config: clone_opt(&self.args.local_config),
                    remote_config: clone_opt(&self.args.remote_config),
                }
            },
            (ConnectStage::Saving, ConnectEvent::Done) => self.after_dir(),
            (ConnectStage::Syncing, ConnectEvent::Done) => self.start_server(),
            (ConnectStage::Warning, ConnectEvent::Done) => self.start_server(),
            (ConnectStage::StartingServer, ConnectEvent::Done) => {
                self.stage = ConnectStage::Forwarding;
                ConnectAction::Forward { port: self.port }
            },
            (ConnectStage::Forwarding, ConnectEvent::Done) => {
                self.stage = ConnectStage::Settling;
                ConnectAction::Settle
            },
            (ConnectStage::Settling, ConnectEvent::Done) => {
                self.stage = ConnectStage::RunningNvim;
                let mut addr = "localhost:".to_string();
                addr.append(decimal(self.port as u64).as_str());
                ConnectAction::RunNvim { server_addr: addr }
            },
            (ConnectStage::RunningNvim, ConnectEvent::NvimExited { success, status }) => {
                self.stage = ConnectStage::ClosingTunnel;
                if success {
                    self.exit_error = None;
                } else {
                    let mut m = "nvim exited: ".to_string();
                    m.append(status.as_str());
                    self.exit_error = Some(m);
                }
                ConnectAction::CloseTunnel
            },
            (ConnectStage::ClosingTunnel, ConnectEvent::Done) => {
                let e = clone_opt(&self.exit_error);
                self.finish(e)
            },
            _ => self.finish(
                Some("connect: event does not answer the last action".to_string()),
            ),
        }
    }
}

/// What the program does for a command line.
pub enum Entry {
    /// Carry out a `session` subcommand.
    Session(SessionAction),
    /// Resume the saved session at this index.
    ConnectSaved(usize),
    /// Connect to this host.
    ConnectHost(String),
    /// Nothing to do: print the help.
    Help,
    /// Offer every saved session.
    PickGlobal,
}

/// Decides what to do for a command line, given the saved sessions (most
/// recent first): a subcommand is carried out; a target that names a saved
/// session (by index, name, or `host:dir`) resumes it, any other target is a
/// host to connect to; without a target, the saved sessions are offered, or
/// the help printed when there are none.
pub fn entry(cli: Cli, sessions: &Vec<Session>) -> (r: Entry)
    ensures
        match cli.command {
            Some(Cmd::Session { action }) => r == Entry::Session(action),
            None => match cli.connect.host {
                Some(t) => match resolve_spec(views(sessions@), t@) {
                    Ok(i) => r == Entry::ConnectSaved(i as usize),
                    Err(_) => r matches Entry::ConnectHost(h) && h@ == t@,
                },
                None => if sessions@.len() == 0 {
                    r is Help
                } else {
                    r is PickGlobal
                },
            },
        },
{
    match cli.command {
        Some(Cmd::Session { action }) => Entry::Session(action),
        None => match cli.connect.host {
            Some(t) => match resolve(sessions, t.as_str()) {
                Ok(i) => Entry::ConnectSaved(i),
                Err(_) => Entry::ConnectHost(t),
            },
            None => if sessions.len() == 0 {
                Entry::Help
            } else {
                Entry::PickGlobal
            },
        },
    }
}

/// What follows the global session picker.
pub enum GlobalPick {
    /// Resume the saved session at this index.
    Resume(usize),
    /// Ask for a host and connect to it.
    NewHost,
    /// The user cancelled.
    Cancel,
}

/// Reads the global picker's outcome: a session, the new-session entry, or
/// a cancelled prompt.
pub fn global_pick(choice: Option<Option<usize>>) -> (r: GlobalPick)
    ensures
        match choice {
            Some(Some(i)) => r == GlobalPick::Resume(i),
            Some(None) => r is NewHost,
            None => r is Cancel,
        },
{
    match choice {
        Some(Some(i)) => GlobalPick::Resume(i),
        Some(None) => GlobalPick::NewHost,
        None => GlobalPick::Cancel,
    }
}

/// Sync precedence: `--no-sync-config` turns syncing off whatever else is
/// set; otherwise syncing is on exactly when `--sync-config` is given or the
/// session has it enabled; command-line paths win over the session's, which
/// win over the defaults.
pub proof fn lemma_sync_precedence(
    args: ArgsView,
    session_sync: bool,
    session_local: Option<Seq<char>>,
    session_remote: Option<Seq<char>>,
    default_local: Seq<char>,
)
    ensures
        args.no_sync_config ==> resolve_sync_spec(
            args,
            session_sync,
            session_local,
            session_remote,
            default_local,
        ) is None,
        !args.no_sync_config ==> (resolve_sync_spec(
            args,
            session_sync,
            session_local,
            session_remote,
            default_local,
        ) is Some <==> (args.sync_config || session_sync)),
        resolve_sync_spec(args, session_sync, session_local, session_remote, default_local) matches Some(
            (l, r),
        ) ==> {
            &&& l == (if args.local_config is Some {
                args.local_config.unwrap()
            } else if session_local is Some {
                session_local.unwrap()
            } else {
                default_local
            })
            &&& r == (if args.remote_config is Some {
                args.remote_config.unwrap()
            } else if session_remote is Some {
                session_remote.unwrap()
            } else {
                "~/.config/nvim"@
            })
        },
{
}

/// The state and the actions after a series of events, from `f`.
pub open spec fn connect_run(f: FlowView, evs: Seq<ConnectEventView>) -> (FlowView, Seq<
    ConnectActionView,
>)
    decreases evs.len(),
{
    if evs.len() == 0 {
        (f, Seq::empty())
    } else {
        let (f1, acts) = connect_run(f, evs.drop_last());
        let (f2, a) = connect_step_spec(f1, evs.last());
        (f2, acts.push(a))
    }
}

/// Stages reached only once the server binary is in place.
pub open spec fn after_bootstrap(st: ConnectStage) -> bool {
    !(st is Start || st is ProbingRsync || st is Connecting || st is Bootstrapping
        || st is Finished)
}

/// Stages of a new session that is to be saved.
pub open spec fn saving_stage(st: ConnectStage) -> bool {
    st is MarkingSaved || st is MarkingPicked || st is PromptingSync || st is Noting
        || st is PromptingName || st is Saving
}

/// The server binary was ensured: an `EnsureServer` action answered `Done`.
pub open spec fn ensured_before(acts: Seq<ConnectActionView>, evs: Seq<ConnectEventView>, j: int) -> bool {
    exists|i: int|
        0 <= i && i + 1 <= j && i + 1 < evs.len() && #[trigger] acts[i] is EnsureServer && evs[i
            + 1] == ConnectEventView::Done
}

proof fn lemma_connect_history(f0: FlowView, evs: Seq<ConnectEventView>)
    requires
        f0.stage is Start,
    ensures
        ({
            let (f, acts) = connect_run(f0, evs);
            &&& acts.len() == evs.len()
            &&& f.args == f0.args && f.saved == f0.saved
            &&& (f.stage is Bootstrapping ==> acts.len() > 0 && acts.last() is EnsureServer)
            &&& (after_bootstrap(f.stage) ==> ensured_before(acts, evs, evs.len() as int))
            &&& (acts.len() > 0 && acts.last() is RunNvim ==> f.stage is RunningNvim)
            &&& (!f0.saved && f0.args.no_save_session ==> !saving_stage(f.stage))
            &&& forall|j: int|
                0 <= j < acts.len() && #[trigger] acts[j] is StartServer ==> ensured_before(
                    acts,
                    evs,
                    j,
                )
            &&& forall|j: int|
                0 <= j && j + 1 < acts.len() && #[trigger] acts[j] is RunNvim && evs[j
                    + 1] is NvimExited ==> acts[j + 1] is CloseTunnel
            &&& (!f0.saved && f0.args.no_save_session) ==> forall|j: int|
                0 <= j < acts.len() ==> !(#[trigger] acts[j] is SaveSession) && !(
                acts[j] is MarkUsed)
        }),
    decreases evs.len(),
{
    if evs.len() > 0 {
        let pre = evs.drop_last();
        lemma_connect_history(f0, pre);
        let (f1, acts1) = connect_run(f0, pre);
        let e = evs.last();
        let n = pre.len() as int;
        let (f2, a) = connect_step_spec(f1, e);
        let acts = acts1.push(a);
        assert(connect_run(f0, evs) == (f2, acts));
        assert forall|i: int| 0 <= i < n implies #[trigger] evs[i] == pre[i] by {}
        assert(evs[n] == e);
        assert forall|i: int| 0 <= i < n implies #[trigger] acts[i] == acts1[i] by {}
        assert(acts[n] == a);
        if after_bootstrap(f1.stage) {
            let i = choose|i: int|
                0 <= i && i + 1 <= n && i + 1 < pre.len() && #[trigger] acts1[i] is EnsureServer
                    && pre[i + 1] == ConnectEventView::Done;
            assert(acts[i] is EnsureServer);
            assert(evs[i + 1] == ConnectEventView::Done);
            assert(ensured_before(acts, evs, n + 1));
            assert(ensured_before(acts, evs, n));
        }
        if f1.stage is Bootstrapping && e == ConnectEventView::Done {
            assert(acts[n - 1] is EnsureServer);
            assert(ensured_before(acts, evs, n + 1));
        }
        assert forall|j: int|
            0 <= j < acts.len() && #[trigger] acts[j] is StartServer implies ensured_before(
                acts,
                evs,
                j,
            ) by {
            if j < n {
                assert(acts1[j] is StartServer);
                let i = choose|i: int|
                    0 <= i && i + 1 <= j && i + 1 < pre.len() && #[trigger] acts1[i] is EnsureServer
                        && pre[i + 1] == ConnectEventView::Done;
                assert(acts[i] is EnsureServer);
                assert(evs[i + 1] == ConnectEventView::Done);
            }
        }
        assert forall|j: int|
            0 <= j && j + 1 < acts.len() && #[trigger] acts[j] is RunNvim && evs[j
                + 1] is NvimExited implies acts[j + 1] is CloseTunnel by {
            if j + 1 < n {
                assert(acts1[j] is RunNvim);
                assert(pre[j + 1] is NvimExited);
            } else {
                assert(acts1.last() is RunNvim);
            }
        }
        if !f0.saved && f0.args.no_save_session {
            assert forall|j: int| 0 <= j < acts.len() implies !(#[trigger] acts[j] is SaveSession)
                && !(acts[j] is MarkUsed) by {
                if j < n {
                    assert(acts[j] == acts1[j]);
                }
            }
        }
    }
}

/// Laws of every run of the connect flow: the remote server is started only
/// after the server binary was ensured on the remote; when nvim exits, the
/// tunnel is closed next; and a connection to a host made with
/// `--no-save-session` neither saves a session nor marks one used.
pub proof fn lemma_connect_laws(f0: FlowView, evs: Seq<ConnectEventView>)
    requires
        f0.stage is Start,
    ensures
        ({
            let acts = connect_run(f0, evs).1;
            &&& acts.len() == evs.len()
            &&& forall|j: int|
                0 <= j < acts.len() && #[trigger] acts[j] is StartServer ==> ensured_before(
                    acts,
                    evs,
                    j,
                )
            &&& forall|j: int|
                0 <= j && j + 1 < acts.len() && #[trigger] acts[j] is RunNvim && evs[j
                    + 1] is NvimExited ==> acts[j + 1] is CloseTunnel
            &&& (!f0.saved && f0.args.no_save_session) ==> forall|j: int|
                0 <= j < acts.len() ==> !(#[trigger] acts[j] is SaveSession) && !(
                acts[j] is MarkUsed)
        }),
{
    lemma_connect_history(f0, evs);
}

/// Choosing the new-session entry of the picker goes on to ask for the
/// working directory: whenever a step offers the session picker, answering
/// it with no session leads to `PromptDirectory` and the flow goes on.
pub proof fn lemma_new_session_prompts_directory(f: FlowView, e: ConnectEventView)
    ensures
        ({
            let (f1, a1) = connect_step_spec(f, e);
            let (f2, a2) = connect_step_spec(f1, ConnectEventView::Picked(None));
            a1 is PickSession ==> a2 == ConnectActionView::PromptDirectory && !(f2.stage is Finished)
        }),
{
    let (f1, a1) = connect_step_spec(f, e);
    if a1 is PickSession {
        assert(f1.stage is Picking);
    }
}

/// The same over runs: a run whose last action is the session picker, and
/// which then sees the new-session answer, next asks for the working
/// directory and has not ended.
pub proof fn lemma_run_new_session_prompts_directory(f0: FlowView, evs: Seq<ConnectEventView>)
    ensures
        ({
            let (_, acts) = connect_run(f0, evs);
            let (f2, acts2) = connect_run(f0, evs.push(ConnectEventView::Picked(None)));
            acts.len() > 0 && acts.last() is PickSession ==> acts2.last()
                == ConnectActionView::PromptDirectory && !(f2.stage is Finished)
        }),
{
    let (f1, acts) = connect_run(f0, evs);
    let evs2 = evs.push(ConnectEventView::Picked(None));
    assert(evs2.drop_last() =~= evs);
    if acts.len() > 0 && acts.last() is PickSession {
        assert(evs.len() > 0);
        let (fp, actsp) = connect_run(f0, evs.drop_last());
        let (fq, a) = connect_step_spec(fp, evs.last());
        assert(acts.last() == a);
        lemma_new_session_prompts_directory(fp, evs.last());
        assert(f1 == fq);
    }
}

} // verus!
