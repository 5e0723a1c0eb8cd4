use rnvim::bootstrap::{Bootstrap, BootstrapAction, BootstrapEvent};
use rnvim::cli::{Cli, Cmd, ConnectArgs, SessionAction};
use rnvim::connect::{
    default_nvim_config_dir, entry, global_pick, resolve_sync, ConnectAction, ConnectEvent,
    ConnectFlow, Entry, GlobalPick,
};
use rnvim::session::Session;

fn args() -> ConnectArgs {
    ConnectArgs {
        host: None,
        port: 7777,
        server_path: "~/.local/bin/rnvim-server".into(),
        new_session: false,
        no_save_session: false,
        sync_config: false,
        no_sync_config: false,
        local_config: None,
        remote_config: None,
    }
}

fn sess(host: &str, dir: &str, last_used: u64, sync: bool) -> Session {
    Session {
        name: None,
        host: host.into(),
        directory: dir.into(),
        port: 9000,
        server_path: "/opt/rnvim-server".into(),
        last_used,
        sync_config: sync,
        local_config: None,
        remote_config: Some("/r".into()),
    }
}

#[test]
fn bootstrap_when_present() {
    let mut b = Bootstrap::new("~/bin/s");
    match b.step(BootstrapEvent::Begin) {
        BootstrapAction::CheckServer { cmd } => {
            assert_eq!(cmd, "test -f ~/bin/s && echo EXISTS || echo MISSING")
        }
        _ => panic!(),
    }
    assert!(matches!(b.step(BootstrapEvent::ServerExists(true)), BootstrapAction::Done { installed: false }));
    assert!(b.is_finished());
}

#[test]
fn bootstrap_installs_when_missing() {
    let mut b = Bootstrap::new("~/bin/s");
    b.step(BootstrapEvent::Begin);
    match b.step(BootstrapEvent::ServerExists(false)) {
        BootstrapAction::DetectPlatform { cmd } => assert_eq!(cmd, "uname -sm"),
        _ => panic!(),
    }
    match b.step(BootstrapEvent::RemotePlatform("Darwin arm64".into())) {
        BootstrapAction::Download { platform } => assert_eq!(platform, "darwin-aarch64"),
        _ => panic!(),
    }
    match b.step(BootstrapEvent::Downloaded) {
        BootstrapAction::Upload { remote_path } => assert_eq!(remote_path, "~/bin/s"),
        _ => panic!(),
    }
    assert!(matches!(b.step(BootstrapEvent::Uploaded), BootstrapAction::Done { installed: true }));
}

#[test]
fn bootstrap_rejects_unknown_platform_and_failures() {
    let mut b = Bootstrap::new("/s");
    b.step(BootstrapEvent::Begin);
    b.step(BootstrapEvent::ServerExists(false));
    match b.step(BootstrapEvent::RemotePlatform("FreeBSD amd64".into())) {
        BootstrapAction::Fail { message } => assert_eq!(
            message,
            "unsupported remote platform: 'FreeBSD amd64'. Supported: Linux x86_64, Linux aarch64, Darwin x86_64, Darwin arm64"
        ),
        _ => panic!(),
    }
    let mut b = Bootstrap::new("/s");
    b.step(BootstrapEvent::Begin);
    match b.step(BootstrapEvent::Failed("ssh command failed".into())) {
        BootstrapAction::Fail { message } => assert_eq!(message, "ssh command failed"),
        _ => panic!(),
    }
    let mut b = Bootstrap::new("/s");
    assert!(matches!(b.step(BootstrapEvent::Uploaded), BootstrapAction::Fail { .. }));
}

#[test]
fn sync_precedence() {
    let mut a = args();
    assert_eq!(resolve_sync(&a, false, None, None, "/h/.config/nvim"), None);
    assert_eq!(
        resolve_sync(&a, true, None, None, "/h/.config/nvim"),
        Some(("/h/.config/nvim".to_string(), "~/.config/nvim".to_string()))
    );
    assert_eq!(
        resolve_sync(&a, true, Some("/sl"), Some("/sr"), "/h/.config/nvim"),
        Some(("/sl".to_string(), "/sr".to_string()))
    );
    a.local_config = Some("/al".into());
    a.sync_config = true;
    assert_eq!(
        resolve_sync(&a, false, Some("/sl"), None, "/h/.config/nvim"),
        Some(("/al".to_string(), "~/.config/nvim".to_string()))
    );
    a.no_sync_config = true;
    assert_eq!(resolve_sync(&a, true, Some("/sl"), None, "/h/.config/nvim"), None);
    assert_eq!(default_nvim_config_dir(""), "/.config/nvim");
    assert_eq!(default_nvim_config_dir("/home/u"), "/home/u/.config/nvim");
}

fn expect_done(f: &mut ConnectFlow) -> ConnectAction {
    f.step(ConnectEvent::Done)
}

#[test]
fn new_host_session_is_prompted_and_saved() {
    let mut a = args();
    a.local_config = Some("/l".into());
    let mut f = ConnectFlow::for_host("me@h", a, "/home/me/.config/nvim");
    assert!(matches!(f.step(ConnectEvent::Begin), ConnectAction::ProbeRsync));
    match f.step(ConnectEvent::RsyncProbed(true)) {
        ConnectAction::OpenConnection { target } => assert_eq!(target, "me@h"),
        _ => panic!(),
    }
    match expect_done(&mut f) {
        ConnectAction::EnsureServer { server_path } => assert_eq!(server_path, "~/.local/bin/rnvim-server"),
        _ => panic!(),
    }
    assert!(matches!(expect_done(&mut f), ConnectAction::LoadSessions));
    let others = vec![sess("other", "/x", 1, false)];
    assert!(matches!(f.step(ConnectEvent::Sessions(others)), ConnectAction::PromptDirectory));
    assert!(matches!(f.step(ConnectEvent::Directory("~/w".into())), ConnectAction::PromptSync));
    assert!(matches!(f.step(ConnectEvent::SyncAnswer(true)), ConnectAction::PromptName));
    match f.step(ConnectEvent::Name(Some("work".into()))) {
        ConnectAction::SaveSession { host, dir, port, name, sync_config, local_config, remote_config, .. } => {
            assert_eq!(host, "me@h");
            assert_eq!(dir, "~/w");
            assert_eq!(port, 7777);
            assert_eq!(name.as_deref(), Some("work"));
            assert!(sync_config);
            assert_eq!(local_config.as_deref(), Some("/l"));
            assert_eq!(remote_config, None);
        }
        _ => panic!(),
    }
    match expect_done(&mut f) {
        ConnectAction::SyncConfig { local, remote } => {
            assert_eq!(local, "/l");
            assert_eq!(remote, "~/.config/nvim");
        }
        _ => panic!(),
    }
    match expect_done(&mut f) {
        ConnectAction::StartServer { server_path, port, working_dir } => {
            assert_eq!(server_path, "~/.local/bin/rnvim-server");
            assert_eq!(port, 7777);
            assert_eq!(working_dir, "~/w");
        }
        _ => panic!(),
    }
    assert!(matches!(expect_done(&mut f), ConnectAction::Forward { port: 7777 }));
    assert!(matches!(expect_done(&mut f), ConnectAction::Settle));
    match expect_done(&mut f) {
        ConnectAction::RunNvim { server_addr } => assert_eq!(server_addr, "localhost:7777"),
        _ => panic!(),
    }
    let exited = ConnectEvent::NvimExited { success: false, status: "exit status: 1".into() };
    assert!(matches!(f.step(exited), ConnectAction::CloseTunnel));
    match expect_done(&mut f) {
        ConnectAction::Finish { error } => assert_eq!(error.as_deref(), Some("nvim exited: exit status: 1")),
        _ => panic!(),
    }
    assert!(f.is_finished());
}

#[test]
fn picked_session_without_rsync_warns() {
    let mut f = ConnectFlow::for_host("h", args(), "/home/me/.config/nvim");
    f.step(ConnectEvent::Begin);
    f.step(ConnectEvent::RsyncProbed(false));
    expect_done(&mut f);
    expect_done(&mut f);
    let all = vec![sess("h", "/old", 1, true), sess("x", "/y", 5, false), sess("h", "/new", 3, false)];
    match f.step(ConnectEvent::Sessions(all)) {
        ConnectAction::PickSession { items } => {
            assert_eq!(items, vec!["h:/new", "h:/old [sync]", "+ New session"])
        }
        _ => panic!(),
    }
    match f.step(ConnectEvent::Picked(Some(1))) {
        ConnectAction::MarkUsed { host, dir } => {
            assert_eq!(host, "h");
            assert_eq!(dir, "/old");
        }
        _ => panic!(),
    }
    match expect_done(&mut f) {
        ConnectAction::Notice { message } => assert!(message.starts_with("Warning: rsync not found")),
        _ => panic!(),
    }
    match expect_done(&mut f) {
        ConnectAction::StartServer { working_dir, .. } => assert_eq!(working_dir, "/old"),
        _ => panic!(),
    }
}

#[test]
fn no_save_session_skips_saving() {
    let mut a = args();
    a.no_save_session = true;
    a.new_session = true;
    let mut f = ConnectFlow::for_host("h", a, "/home/me/.config/nvim");
    f.step(ConnectEvent::Begin);
    f.step(ConnectEvent::RsyncProbed(true));
    expect_done(&mut f);
    expect_done(&mut f);
    let all = vec![sess("h", "/old", 1, true)];
    assert!(matches!(f.step(ConnectEvent::Sessions(all)), ConnectAction::PromptDirectory));
    match f.step(ConnectEvent::Directory("/typed".into())) {
        ConnectAction::StartServer { working_dir, .. } => assert_eq!(working_dir, "/typed"),
        _ => panic!(),
    }
}

#[test]
fn resumed_session_marks_used_and_uses_its_settings() {
    let s = sess("h", "/proj", 1, true);
    let mut f = ConnectFlow::for_session(&s, args(), "/home/me/.config/nvim");
    f.step(ConnectEvent::Begin);
    f.step(ConnectEvent::RsyncProbed(true));
    match expect_done(&mut f) {
        ConnectAction::EnsureServer { server_path } => assert_eq!(server_path, "/opt/rnvim-server"),
        _ => panic!(),
    }
    match expect_done(&mut f) {
        ConnectAction::MarkUsed { host, dir } => {
            assert_eq!(host, "h");
            assert_eq!(dir, "/proj");
        }
        _ => panic!(),
    }
    match expect_done(&mut f) {
        ConnectAction::SyncConfig { local, remote } => {
            assert_eq!(local, "/home/me/.config/nvim");
            assert_eq!(remote, "/r");
        }
        _ => panic!(),
    }
    match expect_done(&mut f) {
        ConnectAction::StartServer { port, .. } => assert_eq!(port, 9000),
        _ => panic!(),
    }
    match f.step(ConnectEvent::Failed("failed to start remote server".into())) {
        ConnectAction::Finish { error } => assert_eq!(error.as_deref(), Some("failed to start remote server")),
        _ => panic!(),
    }
}

#[test]
fn entry_dispatch() {
    let sessions = vec![sess("h", "/d", 1, false)];
    let cli = Cli { command: Some(Cmd::Session { action: SessionAction::List }), connect: args() };
    assert!(matches!(entry(cli, &sessions), Entry::Session(SessionAction::List)));
    let mut a = args();
    a.host = Some("0".into());
    assert!(matches!(entry(Cli { command: None, connect: a }, &sessions), Entry::ConnectSaved(0)));
    let mut a = args();
    a.host = Some("me@elsewhere".into());
    match entry(Cli { command: None, connect: a }, &sessions) {
        Entry::ConnectHost(h) => assert_eq!(h, "me@elsewhere"),
        _ => panic!(),
    }
    assert!(matches!(entry(Cli { command: None, connect: args() }, &sessions), Entry::PickGlobal));
    assert!(matches!(entry(Cli { command: None, connect: args() }, &Vec::new()), Entry::Help));
    assert!(matches!(global_pick(Some(Some(2))), GlobalPick::Resume(2)));
    assert!(matches!(global_pick(Some(None)), GlobalPick::NewHost));
    assert!(matches!(global_pick(None), GlobalPick::Cancel));
}
