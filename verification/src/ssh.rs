//! The commands sent over SSH.
//!
//! A connection is an SSH ControlMaster socket: authentication happens once
//! when it is opened, and every later `ssh` or `rsync` call names the same
//! socket. This module builds the argument lists and remote shell lines of
//! those calls and reads their output; running the processes belongs to the
//! program around the library.

use vstd::prelude::*;
use crate::session::{path_join, path_join_spec};
use crate::text::{
    decimal, decimal_spec, opt_str_view, replace_all, replace_all_spec, replace_first,
    replace_first_spec, str_eq, strs_view, trim, trim_end_char, trim_end_char_spec, trim_spec,
};

verus! {

/// A live SSH connection through a ControlMaster socket.
pub struct SshConn {
    /// The `[user@]host` the connection goes to.
    pub target: String,
    /// Path of the control socket.
    pub socket: String,
}

/// Appends a copy of `s` to `v`.
pub fn push_str(v: &mut Vec<String>, s: &str)
    ensures
        strs_view(final(v)@) == strs_view(old(v)@).push(s@),
{
    let ghost before = v@;
    v.push(s.to_string());
    assert(strs_view(v@) =~= strs_view(before).push(s@));
}

/// The `-o ControlPath=...` value for a socket.
pub open spec fn control_path_spec(socket: Seq<char>) -> Seq<char> {
    "ControlPath="@ + socket
}

/// Arguments that open the ControlMaster connection to `target`.
pub open spec fn connect_args_spec(target: Seq<char>, socket: Seq<char>) -> Seq<Seq<char>> {
    seq![
        "-o"@,
        "ControlMaster=yes"@,
        "-o"@,
        control_path_spec(socket),
        "-o"@,
        "ControlPersist=yes"@,
        target,
        "true"@,
    ]
}

/// Arguments that route a call through an open control socket.
pub open spec fn ctl_args_spec(socket: Seq<char>) -> Seq<Seq<char>> {
    seq!["-o"@, "ControlMaster=no"@, "-o"@, control_path_spec(socket)]
}

/// Arguments that close the control socket.
pub open spec fn exit_args_spec(target: Seq<char>, socket: Seq<char>) -> Seq<Seq<char>> {
    seq!["-O"@, "exit"@, "-o"@, control_path_spec(socket), target]
}

/// The remote shell line that reports whether the server binary exists.
pub open spec fn check_server_cmd_spec(server_path: Seq<char>) -> Seq<char> {
    "test -f "@ + server_path + " && echo EXISTS || echo MISSING"@
}

/// `p` with a leading-home `~` (its first `~`) written as `$HOME`.
pub open spec fn home_to_var(p: Seq<char>) -> Seq<char> {
    replace_first_spec(p, '~', "$HOME"@)
}

/// The remote shell line that stores standard input as an executable file at
/// `remote_path`, creating its directory `parent` (the current directory when
/// the path has no parent).
pub open spec fn upload_cmd_spec(remote_path: Seq<char>, parent: Option<Seq<char>>) -> Seq<char> {
    let dir = home_to_var(
        match parent {
            Some(p) => p,
            None => "."@,
        },
    );
    let path = home_to_var(remote_path);
    "mkdir -p "@ + dir + " && cat > "@ + path + " && chmod +x "@ + path
}

/// How the server is invoked: optional `NVIM_APPNAME=..` prefix, the binary,
/// and its port.
pub open spec fn server_invocation_spec(
    server_path: Seq<char>,
    port: u16,
    appname: Option<Seq<char>>,
) -> Seq<char> {
    let prefix = match appname {
        Some(a) => "NVIM_APPNAME="@ + a + " "@,
        None => ""@,
    };
    prefix + server_path + " --port "@ + decimal_spec(port as nat)
}

/// The shell line run on the remote: the invocation, inside `dir` when given.
pub open spec fn server_line_spec(
    server_path: Seq<char>,
    port: u16,
    working_dir: Option<Seq<char>>,
    appname: Option<Seq<char>>,
) -> Seq<char> {
    let base = server_invocation_spec(server_path, port, appname);
    match working_dir {
        Some(d) => "cd "@ + home_to_var(d) + " && "@ + base,
        None => base,
    }
}

/// `s` as one single-quoted shell word: `'` becomes `'\''`.
pub open spec fn single_quoted(s: Seq<char>) -> Seq<char> {
    "'"@ + replace_all_spec(s, '\'', "'\\''"@) + "'"@
}

/// The remote command that starts the server inside an interactive login
/// shell, so that the user's shell setup runs first.
pub open spec fn remote_server_cmd_spec(
    server_path: Seq<char>,
    port: u16,
    working_dir: Option<Seq<char>>,
    appname: Option<Seq<char>>,
) -> Seq<char> {
    "bash -ilc "@ + single_quoted(server_line_spec(server_path, port, working_dir, appname))
}

/// The `-e` command rsync uses to reach the remote through the socket.
pub open spec fn rsync_shell_spec(socket: Seq<char>) -> Seq<char> {
    "ssh -o ControlMaster=no -o ControlPath="@ + socket
}

/// Arguments of the rsync call that mirrors `local` into `remote`.
pub open spec fn sync_args_spec(
    target: Seq<char>,
    socket: Seq<char>,
    local: Seq<char>,
    remote: Seq<char>,
) -> Seq<Seq<char>> {
    seq![
        "-az"@,
        "--delete"@,
        "-e"@,
        rsync_shell_spec(socket),
        trim_end_char_spec(local, '/') + "/"@,
        target + ":"@ + remote,
    ]
}

/// `port:localhost:port`.
pub open spec fn forward_spec(port: u16) -> Seq<char> {
    decimal_spec(port as nat) + ":localhost:"@ + decimal_spec(port as nat)
}

/// The name for what `Path::parent` returns on a path: its parent, when it
/// has one. Taken on a `&str`, the parent is itself valid UTF-8.
pub uninterp spec fn path_parent(p: Seq<char>) -> Option<Seq<char>>;

/// `std::path::Path::parent` on `p`, as an owned string. Its result is
/// named `path_parent`; of it, the contract states only what the
/// documentation states plainly: the empty path and the root `/` have no
/// parent.
#[verifier::external_body]
fn parent_of_path(p: &str) -> (r: Option<String>)
    ensures
        match r {
            Some(q) => path_parent(p@) == Some(q@),
            None => path_parent(p@) is None,
        },
        p@.len() == 0 ==> r is None,
        p@ == seq!['/'] ==> r is None,
{
    std::path::Path::new(p).parent().and_then(|q| q.to_str()).map(|q| q.to_string())
}

/// The file name of this process's control socket: `rnvim-<pid>.sock`.
pub open spec fn socket_name_spec(pid: u32) -> Seq<char> {
    "rnvim-"@ + decimal_spec(pid as nat) + ".sock"@
}

/// Where this process's control socket lives: `rnvim-<pid>.sock` inside the
/// temporary directory.
pub open spec fn control_socket_path_spec(temp_dir: Seq<char>, pid: u32) -> Seq<char> {
    path_join_spec(temp_dir, socket_name_spec(pid))
}

/// The control socket for the process `pid`, inside `temp_dir`.
pub fn control_socket_path(temp_dir: &str, pid: u32) -> (r: String)
    ensures
        r@ == control_socket_path_spec(temp_dir@, pid),
{
    let mut name = "rnvim-".to_string();
    name.append(decimal(pid as u64).as_str());
    name.append(".sock");
    path_join(temp_dir, name.as_str())
}

impl SshConn {
    /// A connection to `target` through the control socket at `socket`.
    pub fn new(target: &str, socket: &str) -> (r: SshConn)
        ensures
            r.target@ == target@,
            r.socket@ == socket@,
    {
        SshConn { target: target.to_string(), socket: socket.to_string() }
    }

    /// `ControlPath=<socket>`.
    pub fn control_path(socket: &str) -> (r: String)
        ensures
            r@ == control_path_spec(socket@),
    {
        let mut r = "ControlPath=".to_string();
        r.append(socket);
        r
    }

    /// Arguments of the `ssh` call that opens the connection and runs `true`.
    pub fn connect_args(target: &str, socket: &str) -> (r: Vec<String>)
        ensures
            strs_view(r@) == connect_args_spec(target@, socket@),
    {
        let mut v: Vec<String> = Vec::new();
        push_str(&mut v, "-o");
        push_str(&mut v, "ControlMaster=yes");
        push_str(&mut v, "-o");
        push_str(&mut v, Self::control_path(socket).as_str());
        push_str(&mut v, "-o");
        push_str(&mut v, "ControlPersist=yes");
        push_str(&mut v, target);
        push_str(&mut v, "true");
        assert(strs_view(v@) =~= connect_args_spec(target@, socket@));
        v
    }

    /// The four arguments that route a call through the control socket, so
    /// that authentication happens only once.
    pub fn ctl_args(&self) -> (r: [String; 4])
        ensures
            r@.map_values(|x: String| x@) == ctl_args_spec(self.socket@),
    {
        let r = [
            "-o".to_string(),
            "ControlMaster=no".to_string(),
            "-o".to_string(),
            Self::control_path(self.socket.as_str()),
        ];
        assert(r@.map_values(|x: String| x@) =~= ctl_args_spec(self.socket@));
        r
    }

    /// `ctl_args` as a list to extend.
    fn ctl_arg_list(&self) -> (r: Vec<String>)
        ensures
            strs_view(r@) == ctl_args_spec(self.socket@),
    {
        let a = self.ctl_args();
        let mut v: Vec<String> = Vec::new();
        push_str(&mut v, a[0].as_str());
        push_str(&mut v, a[1].as_str());
        push_str(&mut v, a[2].as_str());
        push_str(&mut v, a[3].as_str());
        assert(strs_view(v@) =~= ctl_args_spec(self.socket@)) by {
            assert(a@.map_values(|x: String| x@)[0] == a@[0]@);
            assert(a@.map_values(|x: String| x@)[1] == a@[1]@);
            assert(a@.map_values(|x: String| x@)[2] == a@[2]@);
            assert(a@.map_values(|x: String| x@)[3] == a@[3]@);
        }
        v
    }

    /// Arguments of the `ssh` call that runs `remote_cmd` on the remote.
    pub fn run_remote_args(&self, remote_cmd: &str) -> (r: Vec<String>)
        ensures
            strs_view(r@) == ctl_args_spec(self.socket@) + seq![self.target@, remote_cmd@],
    {
        let mut v = self.ctl_arg_list();
        push_str(&mut v, self.target.as_str());
        push_str(&mut v, remote_cmd);
        assert(strs_view(v@) =~= ctl_args_spec(self.socket@) + seq![self.target@, remote_cmd@]);
        v
    }

    /// What a remote command printed, as the caller sees it: trimmed.
    pub fn remote_output(stdout: &str) -> (r: String)
        ensures
            r@ == trim_spec(stdout@),
    {
        trim(stdout).to_string()
    }

    /// The remote shell line that tests for the server binary.
    pub fn check_server_cmd(server_path: &str) -> (r: String)
        ensures
            r@ == check_server_cmd_spec(server_path@),
    {
        let mut r = "test -f ".to_string();
        r.append(server_path);
        r.append(" && echo EXISTS || echo MISSING");
        r
    }

    /// Whether the output of the check says the binary exists.
    pub fn server_exists(output: &str) -> (r: bool)
        ensures
            r == (trim_spec(output@) == "EXISTS"@),
    {
        str_eq(trim(output), "EXISTS")
    }

    /// The remote shell line that uploads to `remote_path`, given the path's
    /// parent.
    pub fn upload_cmd_with_parent(remote_path: &str, parent: Option<&str>) -> (r: String)
        ensures
            r@ == upload_cmd_spec(remote_path@, opt_str_view(parent)),
    {
        let dir = replace_first(
            match parent {
                Some(p) => p,
                None => ".",
            },
            '~',
            "$HOME",
        );
        let path = replace_first(remote_path, '~', "$HOME");
        let mut r = "mkdir -p ".to_string();
        r.append(dir.as_str());
        r.append(" && cat > ");
        r.append(path.as_str());
        r.append(" && chmod +x ");
        r.append(path.as_str());
        r
    }

    /// The remote shell line that uploads to `remote_path`.
    pub fn upload_cmd(remote_path: &str) -> (r: String)
        ensures
            r@ == upload_cmd_spec(remote_path@, path_parent(remote_path@)),
    {
        let parent = parent_of_path(remote_path);
        match &parent {
            Some(p) => Self::upload_cmd_with_parent(remote_path, Some(p.as_str())),
            None => Self::upload_cmd_with_parent(remote_path, None),
        }
    }

    /// The shell line that starts the server, before quoting.
    pub fn server_line(
        server_path: &str,
        port: u16,
        working_dir: Option<&str>,
        appname: Option<&str>,
    ) -> (r: String)
        ensures
            r@ == server_line_spec(
                server_path@,
                port,
                opt_str_view(working_dir),
                opt_str_view(appname),
            ),
    {
        let mut base = match appname {
            Some(a) => {
                let mut p = "NVIM_APPNAME=".to_string();
                p.append(a);
                p.append(" ");
                p
            },
            None => "".to_string(),
        };
        base.append(server_path);
        base.append(" --port ");
        base.append(decimal(port as u64).as_str());
        match working_dir {
            Some(d) => {
                let mut r = "cd ".to_string();
                r.append(replace_first(d, '~', "$HOME").as_str());
                r.append(" && ");
                r.append(base.as_str());
                r
            },
            None => base,
        }
    }

    /// The remote command that starts the server in an interactive login shell.
    pub fn remote_server_cmd(
        server_path: &str,
        port: u16,
        working_dir: Option<&str>,
        appname: Option<&str>,
    ) -> (r: String)
        ensures
            r@ == remote_server_cmd_spec(
                server_path@,
                port,
                opt_str_view(working_dir),
                opt_str_view(appname),
            ),
    {
        let inner = Self::server_line(server_path, port, working_dir, appname);
        let escaped = replace_all(inner.as_str(), '\'', "'\\''");
        let mut quoted = "'".to_string();
        quoted.append(escaped.as_str());
        quoted.append("'");
        let mut r = "bash -ilc ".to_string();
        r.append(quoted.as_str());
        r
    }

    /// Arguments of the `ssh -f -n` call that starts the server in the
    /// background.
    pub fn start_remote_server_args(
        &self,
        server_path: &str,
        port: u16,
        working_dir: Option<&str>,
        appname: Option<&str>,
    ) -> (r: Vec<String>)
        ensures
            strs_view(r@) == ctl_args_spec(self.socket@) + seq![
                "-f"@,
                "-n"@,
                self.target@,
                remote_server_cmd_spec(
                    server_path@,
                    port,
                    opt_str_view(working_dir),
                    opt_str_view(appname),
                ),
            ],
    {
        let cmd = Self::remote_server_cmd(server_path, port, working_dir, appname);
        let mut v = self.ctl_arg_list();
        push_str(&mut v, "-f");
        push_str(&mut v, "-n");
        push_str(&mut v, self.target.as_str());
        push_str(&mut v, cmd.as_str());
        assert(strs_view(v@) =~= ctl_args_spec(self.socket@) + seq![
            "-f"@,
            "-n"@,
            self.target@,
            cmd@,
        ]);
        v
    }

    /// Arguments of the rsync call that mirrors the local config directory
    /// into the remote one through the control socket.
    pub fn sync_config_args(&self, local_path: &str, remote_path: &str) -> (r: Vec<String>)
        ensures
            strs_view(r@) == sync_args_spec(self.target@, self.socket@, local_path@, remote_path@),
    {
        let mut local_src = trim_end_char(local_path, '/').to_string();
        local_src.append("/");
        let mut dest = self.target.clone();
        dest.append(":");
        dest.append(remote_path);
        let mut shell = "ssh -o ControlMaster=no -o ControlPath=".to_string();
        shell.append(self.socket.as_str());
        let mut v: Vec<String> = Vec::new();
        push_str(&mut v, "-az");
        push_str(&mut v, "--delete");
        push_str(&mut v, "-e");
        push_str(&mut v, shell.as_str());
        push_str(&mut v, local_src.as_str());
        push_str(&mut v, dest.as_str());
        assert(strs_view(v@) =~= sync_args_spec(
            self.target@,
            self.socket@,
            local_path@,
            remote_path@,
        ));
        v
    }

    /// Arguments of the `ssh -N -L` call that forwards `port` on localhost to
    /// the same port on the remote.
    pub fn port_forward_args(&self, port: u16) -> (r: Vec<String>)
        ensures
            strs_view(r@) == ctl_args_spec(self.socket@) + seq![
                "-N"@,
                "-L"@,
                forward_spec(port),
                "-o"@,
                "ExitOnForwardFailure=yes"@,
                self.target@,
            ],
    {
        let p = decimal(port as u64);
        let mut spec = p.clone();
        spec.append(":localhost:");
        spec.append(p.as_str());
        let mut v = self.ctl_arg_list();
        push_str(&mut v, "-N");
        push_str(&mut v, "-L");
        push_str(&mut v, spec.as_str());
        push_str(&mut v, "-o");
        push_str(&mut v, "ExitOnForwardFailure=yes");
        push_str(&mut v, self.target.as_str());
        assert(strs_view(v@) =~= ctl_args_spec(self.socket@) + seq![
            "-N"@,
            "-L"@,
            forward_spec(port),
            "-o"@,
            "ExitOnForwardFailure=yes"@,
            self.target@,
        ]);
        v
    }

    /// Arguments of the `ssh -O exit` call that closes the control socket.
    pub fn exit_args(&self) -> (r: Vec<String>)
        ensures
            strs_view(r@) == exit_args_spec(self.target@, self.socket@),
    {
        let mut v: Vec<String> = Vec::new();
        push_str(&mut v, "-O");
        push_str(&mut v, "exit");
        push_str(&mut v, "-o");
        push_str(&mut v, Self::control_path(self.socket.as_str()).as_str());
        push_str(&mut v, self.target.as_str());
        assert(strs_view(v@) =~= exit_args_spec(self.target@, self.socket@));
        v
    }
}

/// Quote removal as the shell does it for a word built from single-quoted
/// runs, backslash-escaped characters and plain characters: `quoted` tells
/// whether a single-quoted run is open.
pub open spec fn sh_unquote(s: Seq<char>, quoted: bool) -> Seq<char>
    decreases s.len(),
{
    if s.len() == 0 {
        Seq::empty()
    } else if quoted {
        if s[0] == '\'' {
            sh_unquote(s.drop_first(), false)
        } else {
            seq![s[0]] + sh_unquote(s.drop_first(), true)
        }
    } else if s[0] == '\'' {
        sh_unquote(s.drop_first(), true)
    } else if s[0] == '\\' && s.len() > 1 {
        seq![s[1]] + sh_unquote(s.skip(2), false)
    } else {
        seq![s[0]] + sh_unquote(s.drop_first(), false)
    }
}

proof fn lemma_unquote_piece(c: char, t: Seq<char>)
    ensures
        sh_unquote(
            (if c == '\'' {
                "'\\''"@
            } else {
                seq![c]
            }) + t,
            true,
        ) == seq![c] + sh_unquote(t, true),
{
    reveal_strlit("'\\''");
    if c == '\'' {
        let q = "'\\''"@;
        assert(q =~= seq!['\'', '\\', '\'', '\'']);
        let s0 = q + t;
        let s1 = s0.drop_first();
        assert(s1 =~= seq!['\\', '\'', '\''] + t);
        let s2 = s1.skip(2);
        assert(s2 =~= seq!['\''] + t);
        assert(s2.drop_first() =~= t);
        assert(sh_unquote(s2, false) == sh_unquote(t, true));
        assert(sh_unquote(s1, false) == seq!['\''] + sh_unquote(s2, false));
        assert(sh_unquote(s0, true) == sh_unquote(s1, false));
    } else {
        let s0 = seq![c] + t;
        assert(s0.drop_first() =~= t);
    }
}

proof fn lemma_unquote_escaped(x: Seq<char>, t: Seq<char>)
    ensures
        sh_unquote(replace_all_spec(x, '\'', "'\\''"@) + t, true) == x + sh_unquote(t, true),
    decreases x.len(),
{
    if x.len() == 0 {
        assert(replace_all_spec(x, '\'', "'\\''"@) + t =~= t);
        assert(x + sh_unquote(t, true) =~= sh_unquote(t, true));
    } else {
        let c = x.last();
        let piece = if c == '\'' {
            "'\\''"@
        } else {
            seq![c]
        };
        let e0 = replace_all_spec(x.drop_last(), '\'', "'\\''"@);
        assert(replace_all_spec(x, '\'', "'\\''"@) + t =~= e0 + (piece + t));
        lemma_unquote_escaped(x.drop_last(), piece + t);
        lemma_unquote_piece(c, t);
        assert(x.drop_last() + (seq![c] + sh_unquote(t, true)) =~= x + sh_unquote(t, true));
    }
}

/// The server command line survives the shell: removing the quotes of the
/// single-quoted word gives back exactly the line that was quoted, whatever
/// quotes the line itself contains.
pub proof fn lemma_single_quoted_roundtrip(x: Seq<char>)
    ensures
        sh_unquote(single_quoted(x), false) == x,
{
    reveal_strlit("'");
    let e = replace_all_spec(x, '\'', "'\\''"@);
    let w = single_quoted(x);
    assert(w =~= seq!['\''] + (e + seq!['\'']));
    assert(w.drop_first() =~= e + seq!['\'']);
    lemma_unquote_escaped(x, seq!['\'']);
    let one = seq!['\''];
    assert(one.drop_first() =~= Seq::<char>::empty());
    assert(sh_unquote(one, true) == sh_unquote(Seq::<char>::empty(), false));
    assert(x + Seq::<char>::empty() =~= x);
}

/// Authentication happens once: every call made after the connection is
/// open (remote commands, starting the server, the tunnel, and rsync's
/// transport) goes through the same control socket as a non-master client.
pub proof fn lemma_calls_reuse_socket(
    target: Seq<char>,
    socket: Seq<char>,
    extra: Seq<Seq<char>>,
    local: Seq<char>,
    remote: Seq<char>,
)
    ensures
        (ctl_args_spec(socket) + extra).take(4) == seq![
            "-o"@,
            "ControlMaster=no"@,
            "-o"@,
            "ControlPath="@ + socket,
        ],
        sync_args_spec(target, socket, local, remote)[3] == "ssh -o ControlMaster=no -o ControlPath="@
            + socket,
        connect_args_spec(target, socket)[1] == "ControlMaster=yes"@,
        connect_args_spec(target, socket)[3] == "ControlPath="@ + socket,
        exit_args_spec(target, socket)[3] == "ControlPath="@ + socket,
{
    assert((ctl_args_spec(socket) + extra).take(4) =~= ctl_args_spec(socket));
}

proof fn lemma_trim_end_slashes(s: Seq<char>)
    ensures
        ({
            let k = trim_end_char_spec(s, '/');
            &&& k.len() <= s.len()
            &&& s.take(k.len() as int) == k
            &&& forall|i: int| k.len() <= i < s.len() ==> #[trigger] s[i] == '/'
            &&& (k.len() == 0 || k.last() != '/')
        }),
    decreases s.len(),
{
    if s.len() > 0 && s.last() == '/' {
        let t = s.drop_last();
        lemma_trim_end_slashes(t);
        let k = trim_end_char_spec(t, '/');
        assert(s.take(k.len() as int) =~= t.take(k.len() as int));
        assert forall|i: int| k.len() <= i < s.len() implies #[trigger] s[i] == '/' by {
            if i < t.len() {
                assert(s[i] == t[i]);
            }
        }
    } else {
        assert(s.take(s.len() as int) =~= s);
    }
}

/// rsync mirrors the contents of the local config directory, never the
/// directory itself: the source argument is the local path with its
/// trailing `/`s taken off and exactly one `/` put back, whether or not the
/// path ended in `/`. So a path and the same path with a `/` appended give
/// the same call.
pub proof fn lemma_sync_copies_contents(
    target: Seq<char>,
    socket: Seq<char>,
    local: Seq<char>,
    remote: Seq<char>,
)
    ensures
        ({
            let src = sync_args_spec(target, socket, local, remote)[4];
            let base = src.drop_last();
            &&& src.len() > 0 && src.last() == '/'
            &&& (base.len() == 0 || base.last() != '/')
            &&& base.len() <= local.len()
            &&& local.take(base.len() as int) == base
            &&& forall|i: int| base.len() <= i < local.len() ==> #[trigger] local[i] == '/'
        }),
        sync_args_spec(target, socket, local + "/"@, remote) == sync_args_spec(
            target,
            socket,
            local,
            remote,
        ),
{
    lemma_trim_end_slashes(local);
    let k = trim_end_char_spec(local, '/');
    let src = sync_args_spec(target, socket, local, remote)[4];
    assert(src == k + "/"@);
    reveal_strlit("/");
    assert(src.drop_last() =~= k);
    let l2 = local + "/"@;
    assert(l2.len() > 0 && l2.last() == '/');
    assert(l2.drop_last() =~= local);
    assert(trim_end_char_spec(l2, '/') == trim_end_char_spec(local, '/'));
    assert(sync_args_spec(target, socket, l2, remote) =~= sync_args_spec(
        target,
        socket,
        local,
        remote,
    ));
}

} // verus!
