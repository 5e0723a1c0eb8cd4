//! Installing the server binary on the remote when it is missing.
//!
//! The decisions are a state machine: each step takes what the previous
//! action produced and says what to do next. The caller performs the actions
//! (remote commands, the download, the upload) and reports back.

use vstd::prelude::*;
use crate::platform::{platform_from_uname, platform_spec};
use crate::ssh::{check_server_cmd_spec, SshConn};

verus! {

/// Where an installation stands.
#[derive(Clone, Copy)]
pub enum BootstrapStage {
    Start,
    Checking,
    Detecting,
    Downloading,
    Uploading,
    Finished,
}

/// The installation of the server binary at one path.
pub struct Bootstrap {
    server_path: String,
    stage: BootstrapStage,
}

/// The contents of a `Bootstrap`.
pub struct BootstrapView {
    pub server_path: Seq<char>,
    pub stage: BootstrapStage,
}

impl View for Bootstrap {
    type V = BootstrapView;

    closed spec fn view(&self) -> BootstrapView {
        BootstrapView { server_path: self.server_path@, stage: self.stage }
    }
}

/// What the caller reports after an action.
pub enum BootstrapEvent {
    /// Start the installation.
    Begin,
    /// The existence test ran: whether the binary is present.
    ServerExists(bool),
    /// The platform detection ran: what `uname -sm` printed.
    RemotePlatform(String),
    /// The binary was downloaded.
    Downloaded,
    /// The binary was uploaded.
    Uploaded,
    /// The last action failed, with this message.
    Failed(String),
}

/// The contents of a `BootstrapEvent`.
pub enum BootstrapEventView {
    Begin,
    ServerExists(bool),
    RemotePlatform(Seq<char>),
    Downloaded,
    Uploaded,
    Failed(Seq<char>),
}

impl View for BootstrapEvent {
    type V = BootstrapEventView;

    open spec fn view(&self) -> BootstrapEventView {
        match self {
            BootstrapEvent::Begin => BootstrapEventView::Begin,
            BootstrapEvent::ServerExists(b) => BootstrapEventView::ServerExists(*b),
            BootstrapEvent::RemotePlatform(u) => BootstrapEventView::RemotePlatform(u@),
            BootstrapEvent::Downloaded => BootstrapEventView::Downloaded,
            BootstrapEvent::Uploaded => BootstrapEventView::Uploaded,
            BootstrapEvent::Failed(m) => BootstrapEventView::Failed(m@),
        }
    }
}

/// What the caller is to do next.
pub enum BootstrapAction {
    /// Run this shell line on the remote; report whether it says the binary exists.
    CheckServer { cmd: String },
    /// Run this shell line on the remote; report its output.
    DetectPlatform { cmd: String },
    /// Download the latest server binary for this platform suffix.
    Download { platform: String },
    /// Upload the downloaded binary to this path.
    Upload { remote_path: String },
    /// The binary is in place; `installed` tells whether it was just installed.
    Done { installed: bool },
    /// The installation failed.
    Fail { message: String },
}

/// The contents of a `BootstrapAction`.
pub enum BootstrapActionView {
    CheckServer { cmd: Seq<char> },
    DetectPlatform { cmd: Seq<char> },
    Download { platform: Seq<char> },
    Upload { remote_path: Seq<char> },
    Done { installed: bool },
    Fail { message: Seq<char> },
}

impl View for BootstrapAction {
    type V = BootstrapActionView;

    open spec fn view(&self) -> BootstrapActionView {
        match self {
            BootstrapAction::CheckServer { cmd } => BootstrapActionView::CheckServer { cmd: cmd@ },
            BootstrapAction::DetectPlatform { cmd } => BootstrapActionView::DetectPlatform {
                cmd: cmd@,
            },
            BootstrapAction::Download { platform } => BootstrapActionView::Download {
                platform: platform@,
            },
            BootstrapAction::Upload { remote_path } => BootstrapActionView::Upload {
                remote_path: remote_path@,
            },
            BootstrapAction::Done { installed } => BootstrapActionView::Done {
                installed: *installed,
            },
            BootstrapAction::Fail { message } => BootstrapActionView::Fail { message: message@ },
        }
    }
}

/// The message for a platform without a server binary.
pub open spec fn unsupported_message(uname: Seq<char>) -> Seq<char> {
    "unsupported remote platform: '"@ + uname
        + "'. Supported: Linux x86_64, Linux aarch64, Darwin x86_64, Darwin arm64"@
}

/// The message for an event that does not answer the last action.
pub open spec fn out_of_order_message() -> Seq<char> {
    "bootstrap: event does not answer the last action"@
}

/// One step of the installation: the binary is checked for; when present
/// nothing more is done; when missing, the remote platform is detected, the
/// matching binary downloaded and uploaded. Any failure ends the installation.
pub open spec fn bootstrap_step_spec(b: BootstrapView, e: BootstrapEventView) -> (
    BootstrapView,
    BootstrapActionView,
) {
    let finish = BootstrapView { stage: BootstrapStage::Finished, ..b };
    match e {
        BootstrapEventView::Failed(m) => (finish, BootstrapActionView::Fail { message: m }),
        _ => match (b.stage, e) {
            (BootstrapStage::Start, BootstrapEventView::Begin) => (
                BootstrapView { stage: BootstrapStage::Checking, ..b },
                BootstrapActionView::CheckServer { cmd: check_server_cmd_spec(b.server_path) },
            ),
            (BootstrapStage::Checking, BootstrapEventView::ServerExists(true)) => (
                finish,
                BootstrapActionView::Done { installed: false },
            ),
            (BootstrapStage::Checking, BootstrapEventView::ServerExists(false)) => (
                BootstrapView { stage: BootstrapStage::Detecting, ..b },
                BootstrapActionView::DetectPlatform { cmd: "uname -sm"@ },
            ),
            (BootstrapStage::Detecting, BootstrapEventView::RemotePlatform(u)) => match platform_spec(
                u,
            ) {
                Some(p) => (
                    BootstrapView { stage: BootstrapStage::Downloading, ..b },
                    BootstrapActionView::Download { platform: p },
                ),
                None => (finish, BootstrapActionView::Fail { message: unsupported_message(u) }),
            },
            (BootstrapStage::Downloading, BootstrapEventView::Downloaded) => (
                BootstrapView { stage: BootstrapStage::Uploading, ..b },
                BootstrapActionView::Upload { remote_path: b.server_path },
            ),
            (BootstrapStage::Uploading, BootstrapEventView::Uploaded) => (
                finish,
                BootstrapActionView::Done { installed: true },
            ),
            _ => (finish, BootstrapActionView::Fail { message: out_of_order_message() }),
        },
    }
}

impl Bootstrap {
    /// An installation of the server binary at `server_path`, not yet begun.
    pub fn new(server_path: &str) -> (r: Bootstrap)
        ensures
            r@ == (BootstrapView { server_path: server_path@, stage: BootstrapStage::Start }),
    {
        Bootstrap { server_path: server_path.to_string(), stage: BootstrapStage::Start }
    }

    /// Whether the installation has ended.
    pub fn is_finished(&self) -> (r: bool)
        ensures
            r == (self@.stage == BootstrapStage::Finished),
    {
        match self.stage {
            BootstrapStage::Finished => true,
            _ => false,
        }
    }

    /// Takes the outcome of the last action and returns the next one.
    pub fn step(&mut self, event: BootstrapEvent) -> (r: BootstrapAction)
        ensures
            (final(self)@, r@) == bootstrap_step_spec(old(self)@, event@),
    {
        if let BootstrapEvent::Failed(m) = event {
            self.stage = BootstrapStage::Finished;
            return BootstrapAction::Fail { message: m };
        }
        match (self.stage, event) {
            (BootstrapStage::Start, BootstrapEvent::Begin) => {
                self.stage = BootstrapStage::Checking;
                BootstrapAction::CheckServer {
                    cmd: SshConn::check_server_cmd(self.server_path.as_str()),
                }
            },
            (BootstrapStage::Checking, BootstrapEvent::ServerExists(exists)) => {
                if exists {
                    self.stage = BootstrapStage::Finished;
                    BootstrapAction::Done { installed: false }
                } else {
                    self.stage = BootstrapStage::Detecting;
                    BootstrapAction::DetectPlatform { cmd: "uname -sm".to_string() }
                }
            },
            (BootstrapStage::Detecting, BootstrapEvent::RemotePlatform(u)) => {
                match platform_from_uname(u.as_str()) {
                    Some(p) => {
                        self.stage = BootstrapStage::Downloading;
                        BootstrapAction::Download { platform: p.to_string() }
                    },
                    None => {
                        self.stage = BootstrapStage::Finished;
                        let mut m = "unsupported remote platform: '".to_string();
                        m.append(u.as_str());
                        m.append(
                            "'. Supported: Linux x86_64, Linux aarch64, Darwin x86_64, Darwin arm64",
                        );
                        BootstrapAction::Fail { message: m }
                    },
                }
            },
            (BootstrapStage::Downloading, BootstrapEvent::Downloaded) => {
                self.stage = BootstrapStage::Uploading;
                BootstrapAction::Upload { remote_path: self.server_path.clone() }
            },
            (BootstrapStage::Uploading, BootstrapEvent::Uploaded) => {
                self.stage = BootstrapStage::Finished;
                BootstrapAction::Done { installed: true }
            },
            _ => {
                self.stage = BootstrapStage::Finished;
                BootstrapAction::Fail {
                    message: "bootstrap: event does not answer the last action".to_string(),
                }
            },
        }
    }
}

/// The state and the actions after a series of events, from `b`.
pub open spec fn bootstrap_run(b: BootstrapView, evs: Seq<BootstrapEventView>) -> (
    BootstrapView,
    Seq<BootstrapActionView>,
)
    decreases evs.len(),
{
    if evs.len() == 0 {
        (b, Seq::empty())
    } else {
        let (b1, acts) = bootstrap_run(b, evs.drop_last());
        let (b2, a) = bootstrap_step_spec(b1, evs.last());
        (b2, acts.push(a))
    }
}

/// An event reporting the binary missing.
pub open spec fn reports_missing(e: BootstrapEventView) -> bool {
    e == BootstrapEventView::ServerExists(false)
}

/// An event reporting a platform that has a server binary.
pub open spec fn reports_supported(e: BootstrapEventView) -> bool {
    e matches BootstrapEventView::RemotePlatform(u) && platform_spec(u) is Some
}

proof fn lemma_bootstrap_history(server_path: Seq<char>, evs: Seq<BootstrapEventView>)
    ensures
        ({
            let (b, acts) = bootstrap_run(
                BootstrapView { server_path, stage: BootstrapStage::Start },
                evs,
            );
            &&& acts.len() == evs.len()
            &&& b.server_path == server_path
            &&& (b.stage is Detecting || b.stage is Downloading || b.stage is Uploading) ==> exists|
                i: int,
            | 0 <= i < evs.len() && reports_missing(#[trigger] evs[i])
            &&& (b.stage is Downloading || b.stage is Uploading) ==> exists|k: int|
                0 <= k < evs.len() && reports_supported(#[trigger] evs[k])
            &&& forall|j: int|
                0 <= j < acts.len() && (acts[j] is Download || acts[j] is Upload) ==> (exists|
                    i: int,
                | 0 <= i < j && reports_missing(#[trigger] evs[i])) && (exists|k: int|
                    0 <= k <= j && reports_supported(#[trigger] evs[k]))
            &&& forall|j: int|
                0 <= j < acts.len() && (#[trigger] acts[j] is Upload) ==> acts[j]
                    == BootstrapActionView::Upload { remote_path: server_path }
        }),
    decreases evs.len(),
{
    let b0 = BootstrapView { server_path, stage: BootstrapStage::Start };
    if evs.len() > 0 {
        let pre = evs.drop_last();
        lemma_bootstrap_history(server_path, pre);
        let (b1, acts1) = bootstrap_run(b0, pre);
        let n = pre.len() as int;
        assert forall|i: int| 0 <= i < n implies #[trigger] evs[i] == pre[i] by {}
        let e = evs.last();
        assert(evs[n] == e);
        if b1.stage is Detecting || b1.stage is Downloading || b1.stage is Uploading {
            let i = choose|i: int| 0 <= i < n && reports_missing(#[trigger] pre[i]);
            assert(reports_missing(evs[i]));
        }
        if b1.stage is Downloading || b1.stage is Uploading {
            let k = choose|k: int| 0 <= k < n && reports_supported(#[trigger] pre[k]);
            assert(reports_supported(evs[k]));
        }
        if b1.stage is Checking {
            if reports_missing(e) {
                assert(reports_missing(evs[n]));
            }
        }
        if b1.stage is Detecting {
            if reports_supported(e) {
                assert(reports_supported(evs[n]));
            }
        }
        let (b2, acts) = bootstrap_run(b0, evs);
        assert(acts == acts1.push(bootstrap_step_spec(b1, e).1));
        assert forall|j: int|
            0 <= j < acts.len() && (acts[j] is Download || acts[j] is Upload) implies (exists|
                i: int,
            | 0 <= i < j && reports_missing(#[trigger] evs[i])) && (exists|k: int|
                0 <= k <= j && reports_supported(#[trigger] evs[k])) by {
            if j < n {
                assert(acts[j] == acts1[j]);
                let i = choose|i: int| 0 <= i < j && reports_missing(#[trigger] pre[i]);
                assert(reports_missing(evs[i]));
                let k = choose|k: int| 0 <= k <= j && reports_supported(#[trigger] pre[k]);
                assert(reports_supported(evs[k]));
            } else {
                let i = choose|i: int| 0 <= i < n && reports_missing(#[trigger] pre[i]);
                assert(reports_missing(evs[i]));
                if b1.stage is Downloading || b1.stage is Uploading {
                    let k = choose|k: int| 0 <= k < n && reports_supported(#[trigger] pre[k]);
                    assert(reports_supported(evs[k]));
                } else {
                    assert(reports_supported(evs[n]));
                }
            }
        }
        assert forall|j: int|
            0 <= j < acts.len() && (#[trigger] acts[j] is Upload) implies acts[j]
                == BootstrapActionView::Upload { remote_path: server_path } by {
            if j < n {
                assert(acts[j] == acts1[j]);
            }
        }
    }
}

/// In any run of the installation, the binary is downloaded or uploaded only
/// after the remote reported it missing and reported a supported platform,
/// and it is uploaded only to the path the installation was made for.
pub proof fn lemma_install_only_when_missing(server_path: Seq<char>, evs: Seq<BootstrapEventView>)
    ensures
        ({
            let acts = bootstrap_run(
                BootstrapView { server_path, stage: BootstrapStage::Start },
                evs,
            ).1;
            &&& acts.len() == evs.len()
            &&& forall|j: int|
                0 <= j < acts.len() && (acts[j] is Download || acts[j] is Upload) ==> (exists|
                    i: int,
                | 0 <= i < j && reports_missing(#[trigger] evs[i])) && (exists|k: int|
                    0 <= k <= j && reports_supported(#[trigger] evs[k]))
            &&& forall|j: int|
                0 <= j < acts.len() && (#[trigger] acts[j] is Upload) ==> acts[j]
                    == BootstrapActionView::Upload { remote_path: server_path }
        }),
{
    lemma_bootstrap_history(server_path, evs);
}

} // verus!
