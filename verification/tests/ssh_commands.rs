use rnvim::ssh::{control_socket_path, SshConn};

fn conn() -> SshConn {
    SshConn::new("me@box", "/tmp/rnvim-1.sock")
}

#[test]
fn connect_and_control_args() {
    assert_eq!(
        SshConn::connect_args("me@box", "/tmp/s.sock"),
        vec![
            "-o",
            "ControlMaster=yes",
            "-o",
            "ControlPath=/tmp/s.sock",
            "-o",
            "ControlPersist=yes",
            "me@box",
            "true"
        ]
    );
    assert_eq!(
        conn().ctl_args(),
        ["-o", "ControlMaster=no", "-o", "ControlPath=/tmp/rnvim-1.sock"]
    );
    assert_eq!(
        conn().run_remote_args("uname -sm"),
        vec!["-o", "ControlMaster=no", "-o", "ControlPath=/tmp/rnvim-1.sock", "me@box", "uname -sm"]
    );
    assert_eq!(
        conn().exit_args(),
        vec!["-O", "exit", "-o", "ControlPath=/tmp/rnvim-1.sock", "me@box"]
    );
}

#[test]
fn server_check() {
    assert_eq!(
        SshConn::check_server_cmd("~/.local/bin/rnvim-server"),
        "test -f ~/.local/bin/rnvim-server && echo EXISTS || echo MISSING"
    );
    assert!(SshConn::server_exists("EXISTS"));
    assert!(SshConn::server_exists("  EXISTS\n"));
    assert!(!SshConn::server_exists("MISSING"));
    assert_eq!(SshConn::remote_output("  Linux x86_64\n"), "Linux x86_64");
}

#[test]
fn upload_command_uses_path_parent() {
    assert_eq!(
        SshConn::upload_cmd("~/.local/bin/rnvim-server"),
        "mkdir -p $HOME/.local/bin && cat > $HOME/.local/bin/rnvim-server && chmod +x $HOME/.local/bin/rnvim-server"
    );
    assert_eq!(
        SshConn::upload_cmd("/opt/rnvim-server"),
        "mkdir -p /opt && cat > /opt/rnvim-server && chmod +x /opt/rnvim-server"
    );
    assert_eq!(
        SshConn::upload_cmd("rnvim-server"),
        "mkdir -p  && cat > rnvim-server && chmod +x rnvim-server"
    );
    assert_eq!(SshConn::upload_cmd("/"), "mkdir -p . && cat > / && chmod +x /");
    assert_eq!(
        SshConn::upload_cmd_with_parent("~/x", None),
        "mkdir -p . && cat > $HOME/x && chmod +x $HOME/x"
    );
}

#[test]
fn remote_server_command_quotes_the_line() {
    assert_eq!(
        SshConn::remote_server_cmd("~/bin/rnvim-server", 7777, Some("~/proj"), None),
        "bash -ilc 'cd $HOME/proj && ~/bin/rnvim-server --port 7777'"
    );
    assert_eq!(
        SshConn::remote_server_cmd("/s", 80, Some("/it's"), Some("lazy")),
        "bash -ilc 'cd /it'\\''s && NVIM_APPNAME=lazy /s --port 80'"
    );
    assert_eq!(SshConn::remote_server_cmd("/s", 1, None, None), "bash -ilc '/s --port 1'");
    assert_eq!(
        conn().start_remote_server_args("/s", 1, None, None),
        vec![
            "-o",
            "ControlMaster=no",
            "-o",
            "ControlPath=/tmp/rnvim-1.sock",
            "-f",
            "-n",
            "me@box",
            "bash -ilc '/s --port 1'"
        ]
    );
}

#[test]
fn sync_and_forward_args() {
    assert_eq!(
        conn().sync_config_args("/home/u/.config/nvim//", "~/.config/nvim"),
        vec![
            "-az",
            "--delete",
            "-e",
            "ssh -o ControlMaster=no -o ControlPath=/tmp/rnvim-1.sock",
            "/home/u/.config/nvim/",
            "me@box:~/.config/nvim"
        ]
    );
    assert_eq!(
        conn().port_forward_args(7777),
        vec![
            "-o",
            "ControlMaster=no",
            "-o",
            "ControlPath=/tmp/rnvim-1.sock",
            "-N",
            "-L",
            "7777:localhost:7777",
            "-o",
            "ExitOnForwardFailure=yes",
            "me@box"
        ]
    );
}

#[test]
fn control_socket_in_temp_dir() {
    assert_eq!(control_socket_path("/tmp", 4242), "/tmp/rnvim-4242.sock");
    assert_eq!(control_socket_path("/tmp/", 7), "/tmp/rnvim-7.sock");
    assert_eq!(control_socket_path("", 0), "rnvim-0.sock");
    assert_eq!(control_socket_path("/var/t", u32::MAX), "/var/t/rnvim-4294967295.sock");
}
