//! Saved sessions: a remembered (host, working directory) pair with the
//! options used to connect to it, and the operations on the saved list.
//!
//! The list itself is read from and written to disk by the caller; every
//! operation here works on the list in memory.

use vstd::prelude::*;
use crate::cli::SessionAction;
use crate::text::{
    char_pos, digit_char, digit_val, digits_value, is_digit, unsigned_digits, clone_opt, decimal, decimal_spec, find_char, opt_str_view, opt_to_owned, opt_view,
    parse_usize, parse_usize_spec, str_eq, strs_view, lemma_char_pos_props,
};

verus! {

/// A saved connection target.
pub struct Session {
    pub name: Option<String>,
    pub host: String,
    pub directory: String,
    pub port: u16,
    pub server_path: String,
    pub last_used: u64,
    pub sync_config: bool,
    pub local_config: Option<String>,
    pub remote_config: Option<String>,
}

/// The contents of a `Session`.
pub struct SessionView {
    pub name: Option<Seq<char>>,
    pub host: Seq<char>,
    pub directory: Seq<char>,
    pub port: u16,
    pub server_path: Seq<char>,
    pub last_used: u64,
    pub sync_config: bool,
    pub local_config: Option<Seq<char>>,
    pub remote_config: Option<Seq<char>>,
}

impl View for Session {
    type V = SessionView;

    open spec fn view(&self) -> SessionView {
        SessionView {
            name: opt_view(self.name),
            host: self.host@,
            directory: self.directory@,
            port: self.port,
            server_path: self.server_path@,
            last_used: self.last_used,
            sync_config: self.sync_config,
            local_config: opt_view(self.local_config),
            remote_config: opt_view(self.remote_config),
        }
    }
}

/// The contents of a list of sessions.
pub open spec fn views(s: Seq<Session>) -> Seq<SessionView> {
    s.map_values(|x: Session| x@)
}

impl Clone for Session {
    fn clone(&self) -> (r: Self)
        ensures
            r@ == self@,
    {
        Session {
            name: clone_opt(&self.name),
            host: self.host.clone(),
            directory: self.directory.clone(),
            port: self.port,
            server_path: self.server_path.clone(),
            last_used: self.last_used,
            sync_config: self.sync_config,
            local_config: clone_opt(&self.local_config),
            remote_config: clone_opt(&self.remote_config),
        }
    }
}

/// The one-line description of a session shown in lists and pickers:
/// `name [sync] (host:dir)` when named, `host:dir [sync]` otherwise.
pub open spec fn label_spec(s: SessionView) -> Seq<char> {
    let sync = if s.sync_config {
        " [sync]"@
    } else {
        ""@
    };
    match s.name {
        Some(n) => n + sync + " ("@ + s.host + ":"@ + s.directory + ")"@,
        None => s.host + ":"@ + s.directory + sync,
    }
}

impl Session {
    /// The description of this session for lists and pickers.
    pub fn label(&self) -> (r: String)
        ensures
            r@ == label_spec(self@),
    {
        let sync: &str = if self.sync_config {
            " [sync]"
        } else {
            ""
        };
        match &self.name {
            Some(n) => {
                let mut r = n.clone();
                r.append(sync);
                r.append(" (");
                r.append(self.host.as_str());
                r.append(":");
                r.append(self.directory.as_str());
                r.append(")");
                r
            },
            None => {
                let mut r = self.host.clone();
                r.append(":");
                r.append(self.directory.as_str());
                r.append(sync);
                r
            },
        }
    }
}

/// Index of the first element satisfying `p`, or the length when none does.
pub open spec fn first_where(s: Seq<SessionView>, p: spec_fn(SessionView) -> bool) -> int
    decreases s.len(),
{
    if s.len() == 0 {
        0
    } else if p(s[0]) {
        0
    } else {
        1 + first_where(s.drop_first(), p)
    }
}

/// `first_where` is the first index satisfying `p`, or the length.
pub proof fn lemma_first_where(s: Seq<SessionView>, p: spec_fn(SessionView) -> bool, k: int)
    requires
        0 <= k <= s.len(),
        forall|j: int| 0 <= j < k ==> !p(#[trigger] s[j]),
        k == s.len() || p(s[k]),
    ensures
        first_where(s, p) == k,
    decreases k,
{
    if k > 0 {
        let t = s.drop_first();
        assert forall|j: int| 0 <= j < k - 1 implies !p(#[trigger] t[j]) by {
            assert(t[j] == s[j + 1]);
        }
        if k - 1 < t.len() {
            assert(t[k - 1] == s[k]);
        }
        assert(!p(s[0]));
        lemma_first_where(t, p, k - 1);
    }
}

/// Bounds and meaning of `first_where`.
pub proof fn lemma_first_where_props(s: Seq<SessionView>, p: spec_fn(SessionView) -> bool)
    ensures
        0 <= first_where(s, p) <= s.len(),
        forall|j: int| 0 <= j < first_where(s, p) ==> !p(#[trigger] s[j]),
        first_where(s, p) < s.len() ==> p(s[first_where(s, p)]),
    decreases s.len(),
{
    if s.len() > 0 && !p(s[0]) {
        let t = s.drop_first();
        lemma_first_where_props(t, p);
        assert forall|j: int| 0 <= j < first_where(s, p) implies !p(#[trigger] s[j]) by {
            if j > 0 {
                assert(s[j] == t[j - 1]);
            }
        }
    }
}

/// Sessions older than `t`.
pub open spec fn older_than(t: u64) -> spec_fn(SessionView) -> bool {
    |x: SessionView| x.last_used < t
}

/// The session saved for `host` and `dir`.
pub open spec fn entry_for(host: Seq<char>, dir: Seq<char>) -> spec_fn(SessionView) -> bool {
    |x: SessionView| x.host == host && x.directory == dir
}

/// The session named `name`.
pub open spec fn named(name: Seq<char>) -> spec_fn(SessionView) -> bool {
    |x: SessionView| x.name == Some(name)
}

/// Inserts `x` into a list ordered most recent first, after every session
/// at least as recent as `x`.
pub open spec fn insert_recent(s: Seq<SessionView>, x: SessionView) -> Seq<SessionView> {
    s.insert(first_where(s, older_than(x.last_used)), x)
}

/// `s` ordered by `last_used`, most recent first; sessions used at the same
/// time keep their relative order.
pub open spec fn by_recent(s: Seq<SessionView>) -> Seq<SessionView>
    decreases s.len(),
{
    if s.len() == 0 {
        s
    } else {
        insert_recent(by_recent(s.drop_last()), s.last())
    }
}

/// Whether `s` is ordered most recent first.
pub open spec fn is_recent_first(s: Seq<SessionView>) -> bool {
    forall|i: int, j: int| 0 <= i < j < s.len() ==> s[i].last_used >= s[j].last_used
}

/// Orders sessions most recent first, keeping the order of ties.
pub fn sort_by_recent(sessions: Vec<Session>) -> (r: Vec<Session>)
    ensures
        views(r@) == by_recent(views(sessions@)),
{
    let ghost orig = views(sessions@);
    let n = sessions.len();
    let mut input = sessions;
    let mut out: Vec<Session> = Vec::new();
    let mut i: usize = 0;
    assert(orig.skip(0) =~= orig);
    assert(orig.take(0) =~= Seq::<SessionView>::empty());
    while i < n
        invariant
            n == orig.len(),
            i <= n,
            input.len() == n - i,
            views(input@) == orig.skip(i as int),
            views(out@) == by_recent(orig.take(i as int)),
        decreases n - i,
    {
        let ghost before_in = input@;
        let x = input.remove(0);
        assert(views(input@) =~= orig.skip(i + 1)) by {
            assert(input@ == before_in.remove(0));
            assert forall|k: int| 0 <= k < views(input@).len() implies views(input@)[k]
                == orig.skip(i + 1)[k] by {
                assert(input@[k] == before_in[k + 1]);
                assert(views(before_in)[k + 1] == orig.skip(i as int)[k + 1]);
            }
        }
        assert(x@ == orig[i as int]) by {
            assert(x == before_in[0]);
            assert(views(before_in)[0] == orig.skip(i as int)[0]);
        }
        let t = x.last_used;
        let mut j: usize = 0;
        while j < out.len() && out[j].last_used >= t
            invariant
                j <= out.len(),
                forall|k: int| 0 <= k < j ==> !older_than(t)(#[trigger] views(out@)[k]),
            decreases out.len() - j,
        {
            j = j + 1;
        }
        proof {
            if j < out.len() {
                assert(older_than(t)(views(out@)[j as int]));
            }
            lemma_first_where(views(out@), older_than(t), j as int);
        }
        let ghost before_out = out@;
        out.insert(j, x);
        proof {
            assert(views(out@) =~= views(before_out).insert(j as int, x@)) by {
                assert(out@ == before_out.insert(j as int, x));
            }
            let tk = orig.take(i + 1);
            assert(tk.drop_last() =~= orig.take(i as int));
            assert(tk.last() == orig[i as int]);
        }
        i = i + 1;
    }
    assert(orig.take(n as int) =~= orig);
    out
}

/// The sessions of `s` on `host`, in their order.
pub open spec fn with_host(s: Seq<SessionView>, host: Seq<char>) -> Seq<SessionView>
    decreases s.len(),
{
    if s.len() == 0 {
        s
    } else {
        let r = with_host(s.drop_last(), host);
        if s.last().host == host {
            r.push(s.last())
        } else {
            r
        }
    }
}

/// The saved sessions on `host`, most recent first.
pub fn sessions_for_host(sessions: &Vec<Session>, host: &str) -> (r: Vec<Session>)
    ensures
        views(r@) == by_recent(with_host(views(sessions@), host@)),
{
    let ghost s = views(sessions@);
    let n = sessions.len();
    let mut out: Vec<Session> = Vec::new();
    let mut i: usize = 0;
    assert(s.take(0) =~= Seq::<SessionView>::empty());
    while i < n
        invariant
            n == sessions@.len(),
            s == views(sessions@),
            i <= n,
            views(out@) == with_host(s.take(i as int), host@),
        decreases n - i,
    {
        let ghost before = out@;
        let ghost tk = s.take(i + 1);
        assert(tk.drop_last() =~= s.take(i as int));
        assert(tk.last() == sessions@[i as int]@);
        if str_eq(sessions[i].host.as_str(), host) {
            out.push(sessions[i].clone());
            assert(views(out@) =~= views(before).push(sessions@[i as int]@));
        }
        i = i + 1;
    }
    assert(s.take(n as int) =~= s);
    sort_by_recent(out)
}

/// `old` after it is used again: last use time, sync preference, and any
/// name or config paths that are given replace the stored ones.
pub open spec fn touched(
    old: SessionView,
    name: Option<Seq<char>>,
    sync_config: bool,
    local_config: Option<Seq<char>>,
    remote_config: Option<Seq<char>>,
    now: u64,
) -> SessionView {
    SessionView {
        name: if name is Some {
            name
        } else {
            old.name
        },
        last_used: now,
        sync_config: sync_config,
        local_config: if local_config is Some {
            local_config
        } else {
            old.local_config
        },
        remote_config: if remote_config is Some {
            remote_config
        } else {
            old.remote_config
        },
        ..old
    }
}

/// The list after saving a connection to `host` and `dir`: the first session
/// already saved for them is touched, or else a new session is appended.
pub open spec fn add_spec(
    s: Seq<SessionView>,
    host: Seq<char>,
    dir: Seq<char>,
    port: u16,
    server_path: Seq<char>,
    name: Option<Seq<char>>,
    sync_config: bool,
    local_config: Option<Seq<char>>,
    remote_config: Option<Seq<char>>,
    now: u64,
) -> Seq<SessionView> {
    let k = first_where(s, entry_for(host, dir));
    if k < s.len() {
        s.update(k, touched(s[k], name, sync_config, local_config, remote_config, now))
    } else {
        s.push(
            SessionView {
                name: name,
                host: host,
                directory: dir,
                port: port,
                server_path: server_path,
                last_used: now,
                sync_config: sync_config,
                local_config: local_config,
                remote_config: remote_config,
            },
        )
    }
}

/// Index of the first session saved for `host` and `dir`.
fn find_entry(sessions: &Vec<Session>, host: &str, dir: &str) -> (r: usize)
    ensures
        r == first_where(views(sessions@), entry_for(host@, dir@)),
        r <= sessions@.len(),
{
    let ghost s = views(sessions@);
    let n = sessions.len();
    let mut i: usize = 0;
    while i < n
        invariant
            n == sessions@.len(),
            s == views(sessions@),
            i <= n,
            forall|j: int| 0 <= j < i ==> !entry_for(host@, dir@)(#[trigger] s[j]),
        decreases n - i,
    {
        if str_eq(sessions[i].host.as_str(), host) && str_eq(
            sessions[i].directory.as_str(),
            dir,
        ) {
            assert(entry_for(host@, dir@)(s[i as int]));
            proof {
                lemma_first_where(s, entry_for(host@, dir@), i as int);
            }
            return i;
        }
        assert(!entry_for(host@, dir@)(s[i as int]));
        i = i + 1;
    }
    proof {
        lemma_first_where(s, entry_for(host@, dir@), n as int);
    }
    n
}

/// Saves a connection to `host` and `dir` at time `now`: an existing session
/// for the pair is refreshed, otherwise a new one is appended.
pub fn add(
    sessions: &mut Vec<Session>,
    host: &str,
    dir: &str,
    port: u16,
    server_path: &str,
    name: Option<&str>,
    sync_config: bool,
    local_config: Option<String>,
    remote_config: Option<String>,
    now: u64,
)
    ensures
        views(final(sessions)@) == add_spec(
            views(old(sessions)@),
            host@,
            dir@,
            port,
            server_path@,
            opt_str_view(name),
            sync_config,
            opt_view(local_config),
            opt_view(remote_config),
            now,
        ),
{
    let ghost s = views(sessions@);
    let k = find_entry(sessions, host, dir);
    if k < sessions.len() {
        let mut e = sessions[k].clone();
        e.last_used = now;
        if name.is_some() {
            e.name = opt_to_owned(name);
        }
        e.sync_config = sync_config;
        if local_config.is_some() {
            e.local_config = local_config;
        }
        if remote_config.is_some() {
            e.remote_config = remote_config;
        }
        let ghost before = sessions@;
        sessions.set(k, e);
        assert(views(sessions@) =~= s.update(
            k as int,
            touched(
                s[k as int],
                opt_str_view(name),
                sync_config,
                opt_view(local_config),
                opt_view(remote_config),
                now,
            ),
        ));
    } else {
        let ghost before = sessions@;
        let e = Session {
            name: opt_to_owned(name),
            host: host.to_string(),
            directory: dir.to_string(),
            port: port,
            server_path: server_path.to_string(),
            last_used: now,
            sync_config: sync_config,
            local_config: local_config,
            remote_config: remote_config,
        };
        sessions.push(e);
        assert(views(sessions@) =~= s.push(e@));
    }
}

/// Marks the first session saved for `host` and `dir` as used at `now`.
pub open spec fn mark_used_spec(s: Seq<SessionView>, host: Seq<char>, dir: Seq<char>, now: u64) -> Seq<
    SessionView,
> {
    let k = first_where(s, entry_for(host, dir));
    if k < s.len() {
        s.update(k, SessionView { last_used: now, ..s[k] })
    } else {
        s
    }
}

/// Records that the session for `host` and `dir`, if saved, was used at `now`.
pub fn mark_used(sessions: &mut Vec<Session>, host: &str, dir: &str, now: u64)
    ensures
        views(final(sessions)@) == mark_used_spec(views(old(sessions)@), host@, dir@, now),
{
    let ghost s = views(sessions@);
    let k = find_entry(sessions, host, dir);
    if k < sessions.len() {
        let mut e = sessions[k].clone();
        e.last_used = now;
        sessions.set(k, e);
        assert(views(sessions@) =~= s.update(k as int, SessionView { last_used: now, ..s[k as int] }));
    }
}

/// Why a target names no saved session.
pub enum SessionError {
    /// A numeric target at or past the end of the list.
    IndexOutOfRange { index: usize, count: usize },
    /// A target that is neither an index, a name, nor a saved `host:dir`.
    NoMatch { target: String },
}

/// The contents of a `SessionError`.
pub enum SessionErrorView {
    IndexOutOfRange { index: nat, count: nat },
    NoMatch { target: Seq<char> },
}

impl View for SessionError {
    type V = SessionErrorView;

    open spec fn view(&self) -> SessionErrorView {
        match self {
            SessionError::IndexOutOfRange { index, count } => SessionErrorView::IndexOutOfRange {
                index: *index as nat,
                count: *count as nat,
            },
            SessionError::NoMatch { target } => SessionErrorView::NoMatch { target: target@ },
        }
    }
}

/// The message shown for a `SessionError`.
pub open spec fn error_message_spec(e: SessionErrorView) -> Seq<char> {
    match e {
        SessionErrorView::IndexOutOfRange { index, count } => "index "@ + decimal_spec(index)
            + " out of range (have "@ + decimal_spec(count) + " sessions)"@,
        SessionErrorView::NoMatch { target } => "no session matching '"@ + target + "'"@,
    }
}

impl SessionError {
    /// The message shown to the user.
    pub fn message(&self) -> (r: String)
        ensures
            r@ == error_message_spec(self@),
    {
        match self {
            SessionError::IndexOutOfRange { index, count } => {
                let mut r = "index ".to_string();
                r.append(decimal(*index as u64).as_str());
                r.append(" out of range (have ");
                r.append(decimal(*count as u64).as_str());
                r.append(" sessions)");
                r
            },
            SessionError::NoMatch { target } => {
                let mut r = "no session matching '".to_string();
                r.append(target.as_str());
                r.append("'");
                r
            },
        }
    }
}

/// Which saved session `target` names: an in-range index first; else the
/// first session with that name; else, split at the first `:`, the first
/// session saved for that host and directory.
pub open spec fn resolve_spec(s: Seq<SessionView>, target: Seq<char>) -> Result<int, SessionErrorView> {
    match parse_usize_spec(target) {
        Some(i) => if i < s.len() {
            Ok(i as int)
        } else {
            Err(SessionErrorView::IndexOutOfRange { index: i, count: s.len() })
        },
        None => {
            let k = first_where(s, named(target));
            if k < s.len() {
                Ok(k)
            } else {
                let c = char_pos(target, ':');
                if c < target.len() && first_where(
                    s,
                    entry_for(target.take(c), target.skip(c + 1)),
                ) < s.len() {
                    Ok(first_where(s, entry_for(target.take(c), target.skip(c + 1))))
                } else {
                    Err(SessionErrorView::NoMatch { target: target })
                }
            }
        },
    }
}

/// Index of the first session named `name`.
fn find_named(sessions: &Vec<Session>, name: &str) -> (r: usize)
    ensures
        r == first_where(views(sessions@), named(name@)),
        r <= sessions@.len(),
{
    let ghost s = views(sessions@);
    let n = sessions.len();
    let mut i: usize = 0;
    while i < n
        invariant
            n == sessions@.len(),
            s == views(sessions@),
            i <= n,
            forall|j: int| 0 <= j < i ==> !named(name@)(#[trigger] s[j]),
        decreases n - i,
    {
        let hit = match &sessions[i].name {
            Some(nm) => str_eq(nm.as_str(), name),
            None => false,
        };
        if hit {
            assert(named(name@)(s[i as int]));
            proof {
                lemma_first_where(s, named(name@), i as int);
            }
            return i;
        }
        assert(!named(name@)(s[i as int]));
        i = i + 1;
    }
    proof {
        lemma_first_where(s, named(name@), n as int);
    }
    n
}

/// Resolves a target (index, name, or `host:dir`) to an index in the list.
pub fn resolve(sessions: &Vec<Session>, target: &str) -> (r: Result<usize, SessionError>)
    ensures
        match r {
            Ok(i) => resolve_spec(views(sessions@), target@) == Ok::<int, SessionErrorView>(i as int),
            Err(e) => resolve_spec(views(sessions@), target@) == Err::<int, SessionErrorView>(e@),
        },
{
    let n = sessions.len();
    match parse_usize(target) {
        Some(idx) => {
            if idx < n {
                Ok(idx)
            } else {
                Err(SessionError::IndexOutOfRange { index: idx, count: n })
            }
        },
        None => {
            let k = find_named(sessions, target);
            if k < n {
                return Ok(k);
            }
            match find_char(target, ':') {
                Some(c) => {
                    let len = target.unicode_len();
                    let host = target.substring_char(0, c);
                    let dir = target.substring_char(c + 1, len);
                    assert(host@ =~= target@.take(c as int));
                    assert(dir@ =~= target@.skip(c + 1));
                    let m = find_entry(sessions, host, dir);
                    if m < n {
                        Ok(m)
                    } else {
                        Err(SessionError::NoMatch { target: target.to_string() })
                    }
                },
                None => Err(SessionError::NoMatch { target: target.to_string() }),
            }
        },
    }
}

/// Removes the session that `target` names.
pub fn remove(sessions: &mut Vec<Session>, target: &str) -> (r: Result<(), SessionError>)
    ensures
        match resolve_spec(views(old(sessions)@), target@) {
            Ok(i) => r is Ok && views(final(sessions)@) == views(old(sessions)@).remove(i),
            Err(e) => r matches Err(e2) && e2@ == e && views(final(sessions)@) == views(
                old(sessions)@,
            ),
        },
{
    let ghost s = views(sessions@);
    match resolve(sessions, target) {
        Ok(idx) => {
            let ghost before = sessions@;
            sessions.remove(idx);
            assert(views(sessions@) =~= s.remove(idx as int));
            Ok(())
        },
        Err(e) => Err(e),
    }
}

/// What `session list` prints for the list `s`.
pub open spec fn list_lines_spec(s: Seq<SessionView>) -> Seq<Seq<char>> {
    if s.len() == 0 {
        seq!["No saved sessions."@]
    } else {
        Seq::new(s.len(), |i: int| "["@ + decimal_spec(i as nat) + "] "@ + label_spec(s[i]))
    }
}

/// The lines that list the saved sessions.
pub fn list_lines(sessions: &Vec<Session>) -> (r: Vec<String>)
    ensures
        strs_view(r@) == list_lines_spec(views(sessions@)),
{
    let n = sessions.len();
    let mut out: Vec<String> = Vec::new();
    if n == 0 {
        out.push("No saved sessions.".to_string());
        assert(strs_view(out@) =~= list_lines_spec(views(sessions@)));
        return out;
    }
    let mut i: usize = 0;
    while i < n
        invariant
            n == sessions@.len(),
            i <= n,
            out@.len() == i,
            forall|j: int|
                0 <= j < i ==> (#[trigger] out@[j])@ == "["@ + decimal_spec(j as nat) + "] "@
                    + label_spec(sessions@[j]@),
        decreases n - i,
    {
        let mut line = "[".to_string();
        line.append(decimal(i as u64).as_str());
        line.append("] ");
        line.append(sessions[i].label().as_str());
        out.push(line);
        i = i + 1;
    }
    assert(strs_view(out@) =~= list_lines_spec(views(sessions@)));
    out
}

/// The message printed after a session is saved by hand.
pub open spec fn saved_line_spec(host: Seq<char>, dir: Seq<char>) -> Seq<char> {
    "Session saved: "@ + host + " \u{2192} "@ + dir
}

/// The message printed after a session is removed.
pub open spec fn removed_line_spec(target: Seq<char>) -> Seq<char> {
    "Session '"@ + target + "' removed."@
}

/// Carries out a `session` subcommand on the saved list at time `now`, and
/// returns the lines to print.
pub fn handle_action(action: SessionAction, sessions: &mut Vec<Session>, now: u64) -> (r: Result<
    Vec<String>,
    SessionError,
>)
    ensures
        match action {
            SessionAction::List => {
                &&& views(final(sessions)@) == views(old(sessions)@)
                &&& r matches Ok(lines) && strs_view(lines@) == list_lines_spec(views(old(sessions)@))
            },
            SessionAction::Add { host, dir, name, port, server_path, sync_config } => {
                &&& views(final(sessions)@) == add_spec(
                    views(old(sessions)@),
                    host@,
                    dir@,
                    port,
                    server_path@,
                    opt_view(name),
                    sync_config,
                    None,
                    None,
                    now,
                )
                &&& r matches Ok(lines) && strs_view(lines@) == seq![saved_line_spec(host@, dir@)]
            },
            SessionAction::Rm { target } => match resolve_spec(views(old(sessions)@), target@) {
                Ok(i) => {
                    &&& views(final(sessions)@) == views(old(sessions)@).remove(i)
                    &&& r matches Ok(lines) && strs_view(lines@) == seq![removed_line_spec(target@)]
                },
                Err(e) => {
                    &&& views(final(sessions)@) == views(old(sessions)@)
                    &&& r matches Err(e2) && e2@ == e
                },
            },
        },
{
    match action {
        SessionAction::List => Ok(list_lines(sessions)),
        SessionAction::Add { host, dir, name, port, server_path, sync_config } => {
            let nm: Option<&str> = match &name {
                Some(x) => Some(x.as_str()),
                None => None,
            };
            self::add(
                sessions,
                host.as_str(),
                dir.as_str(),
                port,
                server_path.as_str(),
                nm,
                sync_config,
                None,
                None,
                now,
            );
            let mut line = "Session saved: ".to_string();
            line.append(host.as_str());
            line.append(" \u{2192} ");
            line.append(dir.as_str());
            let mut out: Vec<String> = Vec::new();
            out.push(line);
            assert(strs_view(out@) =~= seq![saved_line_spec(host@, dir@)]);
            Ok(out)
        },
        SessionAction::Rm { target } => {
            match remove(sessions, target.as_str()) {
                Ok(()) => {
                    let mut line = "Session '".to_string();
                    line.append(target.as_str());
                    line.append("' removed.");
                    let mut out: Vec<String> = Vec::new();
                    out.push(line);
                    assert(strs_view(out@) =~= seq![removed_line_spec(target@)]);
                    Ok(out)
                },
                Err(e) => Err(e),
            }
        },
    }
}

/// `base` joined with the relative component `comp`, as `PathBuf::join`
/// does on Unix: a separator is added unless `base` is empty or already ends
/// with one.
pub open spec fn path_join_spec(base: Seq<char>, comp: Seq<char>) -> Seq<char> {
    if base.len() == 0 {
        comp
    } else if base.last() == '/' {
        base + comp
    } else {
        base + "/"@ + comp
    }
}

/// Joins a relative component onto a path.
pub fn path_join(base: &str, comp: &str) -> (r: String)
    ensures
        r@ == path_join_spec(base@, comp@),
{
    let n = base.unicode_len();
    if n == 0 {
        comp.to_string()
    } else if base.get_char(n - 1) == '/' {
        let mut r = base.to_string();
        r.append(comp);
        r
    } else {
        let mut r = base.to_string();
        r.append("/");
        r.append(comp);
        r
    }
}

/// The XDG data directory: `$XDG_DATA_HOME` when it is set and absolute,
/// else `$HOME/.local/share`.
pub open spec fn xdg_data_dir_spec(xdg_data_home: Option<Seq<char>>, home: Seq<char>) -> Seq<char> {
    match xdg_data_home {
        Some(x) => if x.len() > 0 && x[0] == '/' {
            x
        } else {
            path_join_spec(home, ".local/share"@)
        },
        None => path_join_spec(home, ".local/share"@),
    }
}

/// The XDG data directory, given `$XDG_DATA_HOME` (if set) and `$HOME`.
pub fn xdg_data_dir(xdg_data_home: Option<&str>, home: &str) -> (r: String)
    ensures
        r@ == xdg_data_dir_spec(opt_str_view(xdg_data_home), home@),
{
    match xdg_data_home {
        Some(x) => if x.unicode_len() > 0 && x.get_char(0) == '/' {
            x.to_string()
        } else {
            path_join(home, ".local/share")
        },
        None => path_join(home, ".local/share"),
    }
}

/// Where the saved sessions are stored.
pub open spec fn sessions_path_spec(xdg_data_home: Option<Seq<char>>, home: Seq<char>) -> Seq<char> {
    path_join_spec(path_join_spec(xdg_data_dir_spec(xdg_data_home, home), "rnvim"@), "sessions.json"@)
}

/// The file that holds the saved sessions.
pub fn sessions_path(xdg_data_home: Option<&str>, home: &str) -> (r: String)
    ensures
        r@ == sessions_path_spec(opt_str_view(xdg_data_home), home@),
{
    let d = xdg_data_dir(xdg_data_home, home);
    let a = path_join(d.as_str(), "rnvim");
    path_join(a.as_str(), "sessions.json")
}

proof fn lemma_insert_recent(r: Seq<SessionView>, x: SessionView)
    requires
        is_recent_first(r),
    ensures
        is_recent_first(insert_recent(r, x)),
        insert_recent(r, x).to_multiset() == r.to_multiset().insert(x),
{
    broadcast use vstd::seq_lib::group_to_multiset_ensures;

    let p = older_than(x.last_used);
    let k = first_where(r, p);
    lemma_first_where_props(r, p);
    let t = r.insert(k, x);
    assert forall|i: int, j: int| 0 <= i < j < t.len() implies t[i].last_used >= t[j].last_used by {
        if i < k {
            assert(t[i] == r[i]);
            assert(!p(r[i]));
            if j > k {
                assert(t[j] == r[j - 1]);
            }
        } else if i == k {
            assert(t[j] == r[j - 1]);
            assert(p(r[k]));
            assert(r[k].last_used >= r[j - 1].last_used);
        } else {
            assert(t[i] == r[i - 1]);
            assert(t[j] == r[j - 1]);
        }
    }
}

/// `by_recent` orders sessions most recent first and keeps exactly the
/// sessions it was given.
pub proof fn lemma_by_recent(s: Seq<SessionView>)
    ensures
        is_recent_first(by_recent(s)),
        by_recent(s).to_multiset() == s.to_multiset(),
    decreases s.len(),
{
    broadcast use vstd::seq_lib::group_to_multiset_ensures;

    if s.len() > 0 {
        lemma_by_recent(s.drop_last());
        lemma_insert_recent(by_recent(s.drop_last()), s.last());
        assert(s.drop_last().push(s.last()) =~= s);
    }
}

proof fn lemma_with_host(s: Seq<SessionView>, host: Seq<char>)
    ensures
        forall|i: int| 0 <= i < with_host(s, host).len() ==> (#[trigger] with_host(s, host)[i]).host
            == host,
        forall|x: SessionView|
            #![trigger with_host(s, host).to_multiset().count(x)]
            with_host(s, host).to_multiset().count(x) == if x.host == host {
                s.to_multiset().count(x)
            } else {
                0
            },
    decreases s.len(),
{
    broadcast use vstd::seq_lib::group_to_multiset_ensures;
    broadcast use vstd::multiset::group_multiset_axioms;

    if s.len() == 0 {
        assert forall|x: SessionView| #[trigger] with_host(s, host).to_multiset().count(x) == 0 by {
            assert(with_host(s, host) =~= Seq::<SessionView>::empty());
        }
    } else {
        lemma_with_host(s.drop_last(), host);
        assert(s.drop_last().push(s.last()) =~= s);
    }
}

/// The sessions offered for a host are exactly the saved sessions on that
/// host, most recent first.
pub proof fn lemma_sessions_for_host(s: Seq<SessionView>, host: Seq<char>)
    ensures
        is_recent_first(by_recent(with_host(s, host))),
        forall|i: int|
            0 <= i < by_recent(with_host(s, host)).len() ==> (#[trigger] by_recent(
                with_host(s, host),
            )[i]).host == host,
        forall|x: SessionView|
            #![trigger by_recent(with_host(s, host)).to_multiset().count(x)]
            by_recent(with_host(s, host)).to_multiset().count(x) == if x.host == host {
                s.to_multiset().count(x)
            } else {
                0
            },
{
    broadcast use vstd::seq_lib::group_to_multiset_ensures;

    let w = with_host(s, host);
    lemma_with_host(s, host);
    lemma_by_recent(w);
    let r = by_recent(w);
    assert forall|i: int| 0 <= i < r.len() implies (#[trigger] r[i]).host == host by {
        assert(r.contains(r[i]));
        assert(r.to_multiset().count(r[i]) > 0);
        assert(w.to_multiset().count(r[i]) > 0);
    }
}

/// No two sessions are saved for the same host and directory.
pub open spec fn no_duplicate_entries(s: Seq<SessionView>) -> bool {
    forall|i: int, j: int|
        0 <= i < j < s.len() ==> !(s[i].host == s[j].host && s[i].directory == s[j].directory)
}

/// Saving a connection remembers it: afterwards the first session for the
/// host and directory carries the new use time and sync preference, and the
/// name and config paths when given; every other session is unchanged; at
/// most one session is added, and only when none was saved for the pair; and
/// a list without duplicate (host, directory) pairs stays without.
pub proof fn lemma_add_remembers(
    s: Seq<SessionView>,
    host: Seq<char>,
    dir: Seq<char>,
    port: u16,
    server_path: Seq<char>,
    name: Option<Seq<char>>,
    sync_config: bool,
    local_config: Option<Seq<char>>,
    remote_config: Option<Seq<char>>,
    now: u64,
)
    ensures
        ({
            let t = add_spec(
                s,
                host,
                dir,
                port,
                server_path,
                name,
                sync_config,
                local_config,
                remote_config,
                now,
            );
            let k = first_where(t, entry_for(host, dir));
            &&& k == first_where(s, entry_for(host, dir))
            &&& 0 <= k < t.len()
            &&& t[k].host == host && t[k].directory == dir
            &&& t[k].last_used == now
            &&& t[k].sync_config == sync_config
            &&& (name is Some ==> t[k].name == name)
            &&& (local_config is Some ==> t[k].local_config == local_config)
            &&& (remote_config is Some ==> t[k].remote_config == remote_config)
            &&& forall|j: int| 0 <= j < s.len() && j != k ==> t[j] == s[j]
            &&& t.len() == if first_where(s, entry_for(host, dir)) < s.len() {
                s.len()
            } else {
                s.len() + 1
            }
            &&& no_duplicate_entries(s) ==> no_duplicate_entries(t)
        }),
{
    let p = entry_for(host, dir);
    let k0 = first_where(s, p);
    lemma_first_where_props(s, p);
    let t = add_spec(
        s,
        host,
        dir,
        port,
        server_path,
        name,
        sync_config,
        local_config,
        remote_config,
        now,
    );
    assert(p(t[k0]));
    assert forall|j: int| 0 <= j < k0 implies !p(#[trigger] t[j]) by {
        assert(t[j] == s[j]);
    }
    lemma_first_where(t, p, k0);
    if no_duplicate_entries(s) {
        assert forall|i: int, j: int| 0 <= i < j < t.len() implies !(t[i].host == t[j].host
            && t[i].directory == t[j].directory) by {
            if j == k0 && k0 == s.len() {
                assert(t[i] == s[i]);
                assert(!p(s[i]));
            } else if i == k0 {
                assert(t[j] == s[j]);
                assert(s[i].host == t[i].host && s[i].directory == t[i].directory);
            } else if j == k0 {
                assert(t[i] == s[i]);
                assert(s[j].host == t[j].host && s[j].directory == t[j].directory);
            } else {
                assert(t[i] == s[i]);
                assert(t[j] == s[j]);
            }
        }
    }
}

/// Marking the saved session for a host and directory used at a time later
/// than every saved use puts it first among the sessions offered for that
/// host.
pub proof fn lemma_mark_used_first(s: Seq<SessionView>, host: Seq<char>, dir: Seq<char>, now: u64)
    requires
        first_where(s, entry_for(host, dir)) < s.len(),
        forall|i: int| 0 <= i < s.len() ==> (#[trigger] s[i]).last_used < now,
    ensures
        ({
            let t = mark_used_spec(s, host, dir, now);
            let k = first_where(s, entry_for(host, dir));
            &&& by_recent(with_host(t, host)).len() > 0
            &&& by_recent(with_host(t, host))[0] == t[k]
        }),
{
    broadcast use vstd::seq_lib::group_to_multiset_ensures;

    let t = mark_used_spec(s, host, dir, now);
    let k = first_where(s, entry_for(host, dir));
    lemma_first_where_props(s, entry_for(host, dir));
    lemma_sessions_for_host(t, host);
    let r = by_recent(with_host(t, host));
    assert(t.contains(t[k]));
    assert(t.to_multiset().count(t[k]) > 0);
    assert(r.to_multiset().count(t[k]) > 0);
    assert(r.contains(t[k]));
    let m = choose|m: int| 0 <= m < r.len() && r[m] == t[k];
    assert(r[0].last_used >= r[m].last_used);
    assert(r.contains(r[0]));
    assert(r.to_multiset().count(r[0]) > 0);
    assert(t.to_multiset().count(r[0]) > 0);
    assert(t.contains(r[0]));
    let q = choose|q: int| 0 <= q < t.len() && t[q] == r[0];
    if q != k {
        assert(t[q] == s[q]);
    }
}

/// A saved connection is offered first next time: after saving a connection
/// to a host and directory at a time later than every saved use, the first
/// session offered for that host is the one for that directory, used at that
/// time.
pub proof fn lemma_added_session_offered_first(
    s: Seq<SessionView>,
    host: Seq<char>,
    dir: Seq<char>,
    port: u16,
    server_path: Seq<char>,
    name: Option<Seq<char>>,
    sync_config: bool,
    local_config: Option<Seq<char>>,
    remote_config: Option<Seq<char>>,
    now: u64,
)
    requires
        forall|i: int| 0 <= i < s.len() ==> (#[trigger] s[i]).last_used < now,
    ensures
        ({
            let t = add_spec(
                s,
                host,
                dir,
                port,
                server_path,
                name,
                sync_config,
                local_config,
                remote_config,
                now,
            );
            let r = by_recent(with_host(t, host));
            &&& r.len() > 0
            &&& r[0].host == host && r[0].directory == dir && r[0].last_used == now
        }),
{
    broadcast use vstd::seq_lib::group_to_multiset_ensures;

    lemma_add_remembers(
        s,
        host,
        dir,
        port,
        server_path,
        name,
        sync_config,
        local_config,
        remote_config,
        now,
    );
    let t = add_spec(
        s,
        host,
        dir,
        port,
        server_path,
        name,
        sync_config,
        local_config,
        remote_config,
        now,
    );
    let k = first_where(t, entry_for(host, dir));
    lemma_sessions_for_host(t, host);
    let r = by_recent(with_host(t, host));
    let x = t[k];
    assert(t.contains(x));
    assert(t.to_multiset().count(x) > 0);
    assert(r.to_multiset().count(x) > 0);
    assert(r.contains(x));
    let m = choose|m: int| 0 <= m < r.len() && r[m] == x;
    assert(r[0].last_used >= r[m].last_used);
    assert(r.contains(r[0]));
    assert(r.to_multiset().count(r[0]) > 0);
    assert(t.to_multiset().count(r[0]) > 0);
    assert(t.contains(r[0]));
    let q = choose|q: int| 0 <= q < t.len() && t[q] == r[0];
    if q != k {
        assert(q < s.len());
        assert(t[q] == s[q]);
    }
}

proof fn lemma_digit_char(d: nat)
    requires
        d < 10,
    ensures
        is_digit(digit_char(d)),
        digit_val(digit_char(d)) == d,
{
    assert('0' as u32 == 48);
    assert('9' as u32 == 57);
}

proof fn lemma_decimal_digits(n: nat)
    ensures
        decimal_spec(n).len() > 0,
        forall|i: int| 0 <= i < decimal_spec(n).len() ==> is_digit(#[trigger] decimal_spec(n)[i]),
        digits_value(decimal_spec(n)) == n,
    decreases n,
{
    let d = decimal_spec(n);
    lemma_digit_char(n % 10);
    if n < 10 {
        assert(d.drop_last() =~= Seq::<char>::empty());
        assert(digits_value(d.drop_last()) == 0);
        assert(d.last() == digit_char(n % 10));
        assert(digits_value(d) == n);
    } else {
        lemma_decimal_digits(n / 10);
        assert(d.drop_last() =~= decimal_spec(n / 10));
        assert(d.last() == digit_char(n % 10));
        assert((n / 10) * 10 + n % 10 == n) by (nonlinear_arith);
        assert(digits_value(d) == digits_value(decimal_spec(n / 10)) * 10 + digit_val(digit_char(n % 10)));
        assert forall|i: int| 0 <= i < d.len() implies is_digit(#[trigger] d[i]) by {
            if i < d.len() - 1 {
                assert(d[i] == decimal_spec(n / 10)[i]);
            }
        }
    }
}

/// The index `session list` prints for a session names that session:
/// `session rm <index>` removes the session shown at that index.
pub proof fn lemma_listed_index_resolves(s: Seq<SessionView>, i: nat)
    requires
        i < s.len(),
        i <= usize::MAX,
    ensures
        parse_usize_spec(decimal_spec(i)) == Some(i),
        resolve_spec(s, decimal_spec(i)) == Ok::<int, SessionErrorView>(i as int),
{
    lemma_decimal_digits(i);
    let d = decimal_spec(i);
    assert(is_digit(d[0]));
    assert(unsigned_digits(d) == d);
}

/// Whether `target` names the session `x` other than by index: it is the
/// session's name, or it is `host:dir` for the session's host (which holds
/// no `:`) and directory.
pub open spec fn names_session(x: SessionView, target: Seq<char>) -> bool {
    x.name == Some(target) || (!x.host.contains(':') && target == x.host + ":"@ + x.directory)
}

proof fn lemma_split_at_colon(t: Seq<char>, host: Seq<char>, dir: Seq<char>)
    requires
        !host.contains(':'),
        t == host + ":"@ + dir,
    ensures
        char_pos(t, ':') == host.len(),
        t.take(host.len() as int) == host,
        t.skip(host.len() + 1int) == dir,
{
    reveal_strlit(":");
    assert forall|j: int| 0 <= j < host.len() implies #[trigger] t[j] != ':' by {
        assert(t[j] == host[j]);
        if t[j] == ':' {
            assert(host.contains(':'));
        }
    }
    assert(t[host.len() as int] == ':');
    crate::text::lemma_char_pos(t, ':', host.len() as int);
    assert(t.take(host.len() as int) =~= host);
    assert(t.skip(host.len() + 1int) =~= dir);
}

/// What a target resolves to. A decimal index picks that position, or is
/// out of range; any other target picks a session it names (one named so,
/// if there is any), and when it names none the answer is `NoMatch` with
/// the target. A bare host therefore picks no session.
pub proof fn lemma_resolve_meaning(s: Seq<SessionView>, t: Seq<char>)
    ensures
        match resolve_spec(s, t) {
            Ok(i) => 0 <= i < s.len() && (parse_usize_spec(t) == Some(i as nat) || (parse_usize_spec(
                t,
            ) is None && names_session(s[i], t) && ((exists|j: int|
                0 <= j < s.len() && #[trigger] s[j].name == Some(t)) ==> s[i].name == Some(t)))),
            Err(SessionErrorView::IndexOutOfRange { index, count }) => parse_usize_spec(t) == Some(
                index,
            ) && index >= s.len() && count == s.len(),
            Err(SessionErrorView::NoMatch { target }) => target == t && parse_usize_spec(t) is None
                && forall|j: int| 0 <= j < s.len() ==> !names_session(#[trigger] s[j], t),
        },
{
    reveal_strlit(":");
    lemma_first_where_props(s, named(t));
    lemma_char_pos_props(t, ':');
    let k = first_where(s, named(t));
    let c = char_pos(t, ':');
    let h = t.take(c);
    let d = t.skip(c + 1);
    lemma_first_where_props(s, entry_for(h, d));
    let m = first_where(s, entry_for(h, d));
    if parse_usize_spec(t) is None && k >= s.len() {
        assert forall|j: int| 0 <= j < s.len() && #[trigger] s[j].name == Some(t) implies false by {
            assert(named(t)(s[j]));
        }
        if c < t.len() {
            assert(!h.contains(':')) by {
                assert forall|j: int| 0 <= j < h.len() implies h[j] != ':' by {
                    assert(h[j] == t[j]);
                }
            }
            assert(t =~= h + ":"@ + d);
        }
        if m < s.len() && c < t.len() {
            assert(entry_for(h, d)(s[m]));
            assert(names_session(s[m], t));
        } else {
            assert forall|j: int| 0 <= j < s.len() implies !names_session(#[trigger] s[j], t) by {
                assert(!named(t)(s[j]));
                if !s[j].host.contains(':') && t == s[j].host + ":"@ + s[j].directory {
                    lemma_split_at_colon(t, s[j].host, s[j].directory);
                    assert(entry_for(h, d)(s[j]));
                }
            }
        }
    } else if parse_usize_spec(t) is None {
        assert(named(t)(s[k]));
    }
}

} // verus!
