//! Completion of remote directory paths while the user types.
//!
//! The subdirectories of one parent are listed on the remote with `find` and
//! remembered: the remote is asked again only when the parent part of the
//! input changes, and typing within one parent filters the remembered list.

use vstd::prelude::*;
use crate::ssh::{ctl_args_spec, push_str, SshConn};
use crate::text::{
    char_pos, find_char, has_prefix, lemma_char_pos_props, replace_all, replace_all_spec,
    starts_with, str_eq, strs_view, trim_end_char, trim_end_char_spec,
};

verus! {

/// Suggests remote directories for a typed path.
pub struct RemoteDirCompleter {
    target: String,
    socket: String,
    /// The remote `$HOME`, used to expand a leading `~`.
    home_dir: String,
    /// The last parent listed and its subdirectories.
    cache: Option<(String, Vec<String>)>,
}

/// The contents of a `RemoteDirCompleter`.
pub struct CompleterView {
    pub target: Seq<char>,
    pub socket: Seq<char>,
    pub home_dir: Seq<char>,
    pub cache: Option<(Seq<char>, Seq<Seq<char>>)>,
}

impl View for RemoteDirCompleter {
    type V = CompleterView;

    closed spec fn view(&self) -> CompleterView {
        CompleterView {
            target: self.target@,
            socket: self.socket@,
            home_dir: self.home_dir@,
            cache: match self.cache {
                Some(c) => Some((c.0@, strs_view(c.1@))),
                None => None,
            },
        }
    }
}

/// Where the directories of a parent come from.
pub enum DirLookup {
    /// The parent was listed last time: its subdirectories.
    Cached(Vec<String>),
    /// The parent must be listed on the remote with this shell line.
    Fetch(String),
}

/// The contents of a `DirLookup`.
pub enum DirLookupView {
    Cached(Seq<Seq<char>>),
    Fetch(Seq<char>),
}

impl View for DirLookup {
    type V = DirLookupView;

    open spec fn view(&self) -> DirLookupView {
        match self {
            DirLookup::Cached(v) => DirLookupView::Cached(strs_view(v@)),
            DirLookup::Fetch(c) => DirLookupView::Fetch(c@),
        }
    }
}

/// `input` with a leading `~` replaced by the remote home, when it is known.
pub open spec fn expand_home_spec(home: Seq<char>, input: Seq<char>) -> Seq<char> {
    if input.len() > 0 && input[0] == '~' && home.len() > 0 {
        home + input.skip(1)
    } else {
        input
    }
}

/// Everything up to and including the last `/`, or nothing.
pub open spec fn parent_of_spec(s: Seq<char>) -> Seq<char>
    decreases s.len(),
{
    if s.len() == 0 || s.last() == '/' {
        s
    } else {
        parent_of_spec(s.drop_last())
    }
}

/// Where the subdirectories of `parent` come from, for a completer `c`:
/// remembered when `parent` was the last one listed, else listed anew.
pub open spec fn lookup_spec(c: CompleterView, parent: Seq<char>) -> DirLookupView {
    match c.cache {
        Some(x) => if x.0 == parent {
            DirLookupView::Cached(x.1)
        } else {
            DirLookupView::Fetch(find_cmd_spec(parent))
        },
        None => DirLookupView::Fetch(find_cmd_spec(parent)),
    }
}

/// The remote shell line that lists the immediate subdirectories (hidden ones
/// too) of `parent`, or of the current directory when it is empty. Quotes are
/// removed from the path so that it stays one quoted word.
pub open spec fn find_cmd_spec(parent: Seq<char>) -> Seq<char> {
    if parent.len() == 0 {
        "find . -maxdepth 1 -mindepth 1 -type d 2>/dev/null | sort | head -50 || true"@
    } else {
        "find '"@ + replace_all_spec(parent, '\'', ""@)
            + "' -maxdepth 1 -mindepth 1 -type d 2>/dev/null | sort | head -50 || true"@
    }
}

/// A line ended by `\n` loses one trailing `\r`.
pub open spec fn strip_cr(l: Seq<char>) -> Seq<char> {
    if l.len() > 0 && l.last() == '\r' {
        l.drop_last()
    } else {
        l
    }
}

/// A listed line as a suggestion: nothing for an empty line, else the path
/// with exactly one trailing `/`.
pub open spec fn listing_entry(l: Seq<char>) -> Seq<Seq<char>> {
    if l.len() == 0 {
        Seq::empty()
    } else {
        seq![trim_end_char_spec(l, '/') + "/"@]
    }
}

/// The directories in the output of a listing, one per non-empty line.
pub open spec fn listing_spec(s: Seq<char>) -> Seq<Seq<char>>
    decreases s.len(),
{
    let k = char_pos(s, '\n');
    if k < s.len() {
        proof {
            lemma_char_pos_props(s, '\n');
        }
        listing_entry(strip_cr(s.take(k))) + listing_spec(s.skip(k + 1))
    } else {
        listing_entry(s)
    }
}

/// The directory to list for an (expanded) input: `/` for empty input.
pub open spec fn query_parent_spec(expanded: Seq<char>) -> Seq<char> {
    if expanded.len() == 0 {
        "/"@
    } else {
        parent_of_spec(expanded)
    }
}

/// The elements of `all` that begin with `p`, in order.
pub open spec fn with_prefix(all: Seq<Seq<char>>, p: Seq<char>) -> Seq<Seq<char>>
    decreases all.len(),
{
    if all.len() == 0 {
        all
    } else {
        let r = with_prefix(all.drop_last(), p);
        if has_prefix(all.last(), p) {
            r.push(all.last())
        } else {
            r
        }
    }
}

/// The first element of `all` that begins with `p`.
pub open spec fn first_with_prefix(all: Seq<Seq<char>>, p: Seq<char>) -> Option<Seq<char>>
    decreases all.len(),
{
    if all.len() == 0 {
        None
    } else if has_prefix(all[0], p) {
        Some(all[0])
    } else {
        first_with_prefix(all.drop_first(), p)
    }
}

/// The suggestions for an input: every listed directory when it is empty,
/// else those that begin with it.
pub open spec fn suggestions_spec(expanded: Seq<char>, all: Seq<Seq<char>>) -> Seq<Seq<char>> {
    if expanded.len() == 0 {
        all
    } else {
        with_prefix(all, expanded)
    }
}

/// The directory Tab completes to when none is highlighted: the first listed
/// when the input is empty, else the first that begins with it.
pub open spec fn completion_choice_spec(expanded: Seq<char>, all: Seq<Seq<char>>) -> Option<
    Seq<char>,
> {
    if expanded.len() == 0 {
        if all.len() > 0 {
            Some(all[0])
        } else {
            None
        }
    } else {
        first_with_prefix(all, expanded)
    }
}

/// A copy of a list of strings.
pub fn clone_strs(v: &Vec<String>) -> (r: Vec<String>)
    ensures
        strs_view(r@) == strs_view(v@),
{
    let mut out: Vec<String> = Vec::new();
    let mut i: usize = 0;
    while i < v.len()
        invariant
            i <= v@.len(),
            strs_view(out@) == strs_view(v@).take(i as int),
        decreases v@.len() - i,
    {
        push_str(&mut out, v[i].as_str());
        assert(strs_view(v@).take(i + 1) =~= strs_view(v@).take(i as int).push(v@[i as int]@));
        i = i + 1;
    }
    assert(strs_view(v@).take(v@.len() as int) =~= strs_view(v@));
    out
}

/// Parses the output of a listing into suggestions.
pub fn parse_dir_listing(stdout: &str) -> (r: Vec<String>)
    ensures
        strs_view(r@) == listing_spec(stdout@),
{
    let n = stdout.unicode_len();
    let mut out: Vec<String> = Vec::new();
    let mut start: usize = 0;
    assert(stdout@.skip(0) =~= stdout@);
    loop
        invariant
            n == stdout@.len(),
            start <= n,
            listing_spec(stdout@) == strs_view(out@) + listing_spec(stdout@.skip(start as int)),
        decreases n - start,
    {
        let rest = stdout.substring_char(start, n);
        assert(rest@ =~= stdout@.skip(start as int));
        let ghost before = out@;
        match find_char(rest, '\n') {
            Some(k) => {
                let line = rest.substring_char(0, k);
                assert(line@ =~= rest@.take(k as int));
                let l = if k > 0 && line.get_char(k - 1) == '\r' {
                    line.substring_char(0, k - 1)
                } else {
                    line
                };
                assert(l@ =~= strip_cr(line@));
                if l.unicode_len() > 0 {
                    let mut e = trim_end_char(l, '/').to_string();
                    e.append("/");
                    out.push(e);
                }
                assert(strs_view(out@) =~= strs_view(before) + listing_entry(strip_cr(line@)));
                assert(rest@.skip(k + 1) =~= stdout@.skip(start + k + 1));
                start = start + k + 1;
            },
            None => {
                if rest.unicode_len() > 0 {
                    let mut e = trim_end_char(rest, '/').to_string();
                    e.append("/");
                    out.push(e);
                }
                assert(strs_view(out@) =~= strs_view(before) + listing_entry(rest@));
                assert(strs_view(out@) =~= strs_view(before) + listing_spec(rest@));
                return out;
            },
        }
    }
}

/// Suggestions for `expanded` among the listed directories `all`.
pub fn suggestions(expanded: &str, all: Vec<String>) -> (r: Vec<String>)
    ensures
        strs_view(r@) == suggestions_spec(expanded@, strs_view(all@)),
{
    if expanded.unicode_len() == 0 {
        return all;
    }
    let mut out: Vec<String> = Vec::new();
    let mut i: usize = 0;
    while i < all.len()
        invariant
            i <= all@.len(),
            expanded@.len() > 0,
            strs_view(out@) == with_prefix(strs_view(all@).take(i as int), expanded@),
        decreases all@.len() - i,
    {
        let ghost before = out@;
        let ghost t = strs_view(all@).take(i + 1);
        assert(t.drop_last() =~= strs_view(all@).take(i as int));
        assert(t.last() == all@[i as int]@);
        if starts_with(all[i].as_str(), expanded) {
            push_str(&mut out, all[i].as_str());
        }
        i = i + 1;
    }
    assert(strs_view(all@).take(all@.len() as int) =~= strs_view(all@));
    out
}

/// The directory Tab completes to, when none is highlighted.
pub fn completion_choice(expanded: &str, all: &Vec<String>) -> (r: Option<String>)
    ensures
        match r {
            Some(d) => completion_choice_spec(expanded@, strs_view(all@)) == Some(d@),
            None => completion_choice_spec(expanded@, strs_view(all@)) is None,
        },
{
    if expanded.unicode_len() == 0 {
        if all.len() > 0 {
            return Some(all[0].clone());
        }
        return None;
    }
    let ghost s = strs_view(all@);
    let mut i: usize = 0;
    assert(s.skip(0) =~= s);
    while i < all.len()
        invariant
            i <= all@.len(),
            s == strs_view(all@),
            expanded@.len() > 0,
            first_with_prefix(s, expanded@) == first_with_prefix(s.skip(i as int), expanded@),
        decreases all@.len() - i,
    {
        let ghost rest = s.skip(i as int);
        assert(rest[0] == all@[i as int]@);
        if starts_with(all[i].as_str(), expanded) {
            return Some(all[i].clone());
        }
        assert(rest.drop_first() =~= s.skip(i + 1));
        i = i + 1;
    }
    None
}

/// What Tab puts in the input for a chosen directory: the path without its
/// trailing `/`, so that typing `/` enters it and refreshes the list.
pub fn completion_text(dir: &str) -> (r: String)
    ensures
        r@ == trim_end_char_spec(dir@, '/'),
{
    trim_end_char(dir, '/').to_string()
}


/// The directory to list for an expanded input.
pub fn query_parent(expanded: &str) -> (r: String)
    ensures
        r@ == query_parent_spec(expanded@),
{
    if expanded.unicode_len() == 0 {
        "/".to_string()
    } else {
        RemoteDirCompleter::parent_of(expanded).to_string()
    }
}


impl Clone for RemoteDirCompleter {
    fn clone(&self) -> (r: Self)
        ensures
            r@ == self@,
    {
        let cache = match &self.cache {
            Some(c) => Some((c.0.clone(), clone_strs(&c.1))),
            None => None,
        };
        RemoteDirCompleter {
            target: self.target.clone(),
            socket: self.socket.clone(),
            home_dir: self.home_dir.clone(),
            cache,
        }
    }
}

impl RemoteDirCompleter {
    /// Everything up to and including the last `/` of `input`, or nothing.
    pub fn parent_of(input: &str) -> (r: &str)
        ensures
            r@ == parent_of_spec(input@),
    {
        let n = input.unicode_len();
        let mut b: usize = n;
        assert(input@.take(n as int) =~= input@);
        while b > 0 && input.get_char(b - 1) != '/'
            invariant
                n == input@.len(),
                b <= n,
                parent_of_spec(input@) == parent_of_spec(input@.take(b as int)),
            decreases b,
        {
            assert(input@.take(b as int).drop_last() =~= input@.take(b - 1));
            b = b - 1;
        }
        input.substring_char(0, b)
    }

    /// The shell line that lists the subdirectories of `parent`.
    pub fn find_cmd(parent: &str) -> (r: String)
        ensures
            r@ == find_cmd_spec(parent@),
    {
        if parent.unicode_len() == 0 {
            "find . -maxdepth 1 -mindepth 1 -type d 2>/dev/null | sort | head -50 || true".to_string()
        } else {
            let safe = replace_all(parent, '\'', "");
            let mut r = "find '".to_string();
            r.append(safe.as_str());
            r.append("' -maxdepth 1 -mindepth 1 -type d 2>/dev/null | sort | head -50 || true");
            r
        }
    }

    /// A completer for `target` through `socket`, with nothing listed yet.
    pub fn new(target: String, socket: String, home_dir: String) -> (r: Self)
        ensures
            r@ == (CompleterView {
                target: target@,
                socket: socket@,
                home_dir: home_dir@,
                cache: None,
            }),
    {
        RemoteDirCompleter { target, socket, home_dir, cache: None }
    }

    /// Expands a leading `~` to the remote home so that every path is absolute.
    pub fn expand_home(&self, input: &str) -> (r: String)
        ensures
            r@ == expand_home_spec(self@.home_dir, input@),
    {
        let n = input.unicode_len();
        if n > 0 && input.get_char(0) == '~' && self.home_dir.as_str().unicode_len() > 0 {
            let mut r = self.home_dir.clone();
            r.append(input.substring_char(1, n));
            assert(input@.subrange(1, n as int) =~= input@.skip(1));
            r
        } else {
            input.to_string()
        }
    }

    /// The remembered subdirectories of `parent`, or the line that lists them.
    pub fn dirs_for_parent(&self, parent: &str) -> (r: DirLookup)
        ensures
            r@ == lookup_spec(self@, parent@),
    {
        match &self.cache {
            Some(c) => {
                if str_eq(c.0.as_str(), parent) {
                    DirLookup::Cached(clone_strs(&c.1))
                } else {
                    DirLookup::Fetch(Self::find_cmd(parent))
                }
            },
            None => DirLookup::Fetch(Self::find_cmd(parent)),
        }
    }

    /// Remembers what listing `parent` printed, and returns its directories.
    pub fn record_listing(&mut self, parent: &str, stdout: &str) -> (r: Vec<String>)
        ensures
            strs_view(r@) == listing_spec(stdout@),
            final(self)@ == (CompleterView {
                cache: Some((parent@, listing_spec(stdout@))),
                ..old(self)@
            }),
    {
        let results = parse_dir_listing(stdout);
        self.cache = Some((parent.to_string(), clone_strs(&results)));
        results
    }

    /// Arguments of the `ssh` call that runs `cmd` through the socket.
    pub fn run_ssh_args(&self, cmd: &str) -> (r: Vec<String>)
        ensures
            strs_view(r@) == ctl_args_spec(self@.socket) + seq![self@.target, cmd@],
    {
        let conn = SshConn::new(self.target.as_str(), self.socket.as_str());
        conn.run_remote_args(cmd)
    }
}

/// A listing is remembered: right after the listing of `parent` is
/// recorded, asking for `parent` again gives that listing without going to
/// the remote, while any other parent is listed anew.
pub proof fn lemma_listing_remembered(c: CompleterView, parent: Seq<char>, stdout: Seq<char>, other: Seq<char>)
    requires
        other != parent,
    ensures
        lookup_spec(CompleterView { cache: Some((parent, listing_spec(stdout))), ..c }, parent)
            == DirLookupView::Cached(listing_spec(stdout)),
        lookup_spec(CompleterView { cache: Some((parent, listing_spec(stdout))), ..c }, other)
            == DirLookupView::Fetch(find_cmd_spec(other)),
{
}

proof fn lemma_with_prefix(all: Seq<Seq<char>>, p: Seq<char>)
    ensures
        forall|i: int| 0 <= i < with_prefix(all, p).len() ==> has_prefix(
            #[trigger] with_prefix(all, p)[i],
            p,
        ) && all.contains(with_prefix(all, p)[i]),
    decreases all.len(),
{
    if all.len() > 0 {
        let pre = all.drop_last();
        lemma_with_prefix(pre, p);
        let r = with_prefix(all, p);
        assert forall|i: int| 0 <= i < r.len() implies has_prefix(#[trigger] r[i], p) && all.contains(
            r[i],
        ) by {
            if i < with_prefix(pre, p).len() {
                assert(r[i] == with_prefix(pre, p)[i]);
                let j = choose|j: int| 0 <= j < pre.len() && pre[j] == r[i];
                assert(all[j] == pre[j]);
            } else {
                assert(r[i] == all.last());
                assert(all[all.len() - 1] == all.last());
            }
        }
    }
}

/// Typing filters the listing: with an empty input every listed directory
/// is suggested; otherwise each suggestion is a listed directory that begins
/// with the input.
pub proof fn lemma_suggestions_match_input(expanded: Seq<char>, all: Seq<Seq<char>>)
    ensures
        expanded.len() == 0 ==> suggestions_spec(expanded, all) == all,
        forall|i: int|
            0 <= i < suggestions_spec(expanded, all).len() ==> has_prefix(
                #[trigger] suggestions_spec(expanded, all)[i],
                expanded,
            ) && all.contains(suggestions_spec(expanded, all)[i]),
{
    lemma_with_prefix(all, expanded);
    if expanded.len() == 0 {
        assert forall|i: int| 0 <= i < all.len() implies has_prefix(#[trigger] all[i], expanded)
            && all.contains(all[i]) by {
            assert(all[i].take(0) =~= expanded);
        }
    }
}

/// Whether a directory begins with the typed input.
pub open spec fn begins_with(p: Seq<char>) -> spec_fn(Seq<char>) -> bool {
    |d: Seq<char>| has_prefix(d, p)
}

proof fn lemma_with_prefix_is_filter(all: Seq<Seq<char>>, p: Seq<char>)
    ensures
        with_prefix(all, p) == all.filter(begins_with(p)),
        p.len() == 0 ==> with_prefix(all, p) == all,
    decreases all.len(),
{
    reveal(Seq::filter);
    if all.len() > 0 {
        lemma_with_prefix_is_filter(all.drop_last(), p);
        if p.len() == 0 {
            assert(all.last().take(0) =~= p);
            assert(all.drop_last().push(all.last()) =~= all);
        }
    }
}

/// Suggestions are exactly the listed directories that begin with the typed
/// input, in the order they were listed; hidden ones are no exception. So
/// every listed directory that begins with the input is offered, and with an
/// empty input every listed directory is.
pub proof fn lemma_suggestions_complete(expanded: Seq<char>, all: Seq<Seq<char>>)
    ensures
        suggestions_spec(expanded, all) == all.filter(begins_with(expanded)),
        forall|d: Seq<char>|
            all.contains(d) && has_prefix(d, expanded) ==> #[trigger] suggestions_spec(
                expanded,
                all,
            ).contains(d),
{
    lemma_with_prefix_is_filter(all, expanded);
    broadcast use vstd::seq_lib::group_filter_ensures;
    assert forall|d: Seq<char>| all.contains(d) && has_prefix(d, expanded) implies #[trigger] suggestions_spec(
        expanded,
        all,
    ).contains(d) by {
        let j = choose|j: int| 0 <= j < all.len() && all[j] == d;
        assert(begins_with(expanded)(all[j]));
    }
}

proof fn lemma_removed_char_absent(s: Seq<char>, c: char)
    ensures
        !replace_all_spec(s, c, Seq::empty()).contains(c),
    decreases s.len(),
{
    if s.len() > 0 {
        lemma_removed_char_absent(s.drop_last(), c);
        let r0 = replace_all_spec(s.drop_last(), c, Seq::empty());
        let r = replace_all_spec(s, c, Seq::empty());
        if s.last() == c {
            assert(r =~= r0);
        } else {
            assert(r =~= r0.push(s.last()));
            assert forall|i: int| 0 <= i < r.len() implies r[i] != c by {
                if i < r0.len() {
                    assert(r[i] == r0[i]);
                }
            }
        }
    }
}

/// The listing command keeps a typed path inside one single-quoted shell
/// word: the path is quoted as given, less any `'` in it.
pub proof fn lemma_find_cmd_quotes_path(parent: Seq<char>)
    requires
        parent.len() > 0,
    ensures
        ({
            let q = replace_all_spec(parent, '\'', ""@);
            &&& !q.contains('\'')
            &&& find_cmd_spec(parent) == "find '"@ + q
                + "' -maxdepth 1 -mindepth 1 -type d 2>/dev/null | sort | head -50 || true"@
        }),
{
    reveal_strlit("");
    assert(""@ =~= Seq::<char>::empty());
    lemma_removed_char_absent(parent, '\'');
}

proof fn lemma_trim_end_char_props(s: Seq<char>, c: char)
    ensures
        trim_end_char_spec(s, c).len() == 0 || trim_end_char_spec(s, c).last() != c,
    decreases s.len(),
{
    if s.len() > 0 && s.last() == c {
        lemma_trim_end_char_props(s.drop_last(), c);
    }
}

/// Every listed directory ends in exactly one `/`.
pub proof fn lemma_listing_entries(s: Seq<char>)
    ensures
        forall|i: int|
            0 <= i < listing_spec(s).len() ==> {
                let e = #[trigger] listing_spec(s)[i];
                &&& e.len() > 0
                &&& e.last() == '/'
                &&& (e.len() == 1 || e[e.len() - 2] != '/')
            },
    decreases s.len(),
{
    reveal_strlit("/");
    let k = char_pos(s, '\n');
    lemma_char_pos_props(s, '\n');
    let l = if k < s.len() {
        strip_cr(s.take(k))
    } else {
        s
    };
    let head = listing_entry(l);
    if l.len() > 0 {
        let t = trim_end_char_spec(l, '/');
        lemma_trim_end_char_props(l, '/');
        assert(head[0] == t + "/"@);
        assert((t + "/"@).last() == '/');
        if t.len() > 0 {
            assert((t + "/"@)[(t + "/"@).len() - 2] == t.last());
        }
    }
    if k < s.len() {
        lemma_listing_entries(s.skip(k + 1));
        let rest = listing_spec(s.skip(k + 1));
        assert(listing_spec(s) == head + rest);
        assert forall|i: int| 0 <= i < listing_spec(s).len() implies {
            let e = #[trigger] listing_spec(s)[i];
            &&& e.len() > 0
            &&& e.last() == '/'
            &&& (e.len() == 1 || e[e.len() - 2] != '/')
        } by {
            if i >= head.len() {
                assert(listing_spec(s)[i] == rest[i - head.len()]);
            }
        }
    }
}

/// Where a suggestion or completion query stands.
#[derive(Clone, Copy)]
pub enum QueryStage {
    /// Waiting for the listing of the parent directory.
    AwaitListing,
    /// Waiting for the listing of the chosen directory, fetched ahead so
    /// that the next keystroke finds it remembered.
    AwaitWarm,
    /// Answered.
    Finished,
}

/// A suggestion or completion query that may wait on remote listings.
pub struct DirQuery {
    expanded: String,
    pending: String,
    stage: QueryStage,
}

/// The contents of a `DirQuery`.
pub struct DirQueryView {
    /// The input with `~` expanded.
    pub expanded: Seq<char>,
    /// The directory whose listing is awaited.
    pub pending: Seq<char>,
    pub stage: QueryStage,
}

impl View for DirQuery {
    type V = DirQueryView;

    closed spec fn view(&self) -> DirQueryView {
        DirQueryView { expanded: self.expanded@, pending: self.pending@, stage: self.stage }
    }
}

/// What to do next for a suggestion query.
pub enum SuggestAction {
    /// Run this listing on the remote and hand its output back.
    Fetch { cmd: String },
    /// The suggestions.
    Answer(Vec<String>),
}

/// The contents of a `SuggestAction`.
pub enum SuggestActionView {
    Fetch { cmd: Seq<char> },
    Answer(Seq<Seq<char>>),
}

impl View for SuggestAction {
    type V = SuggestActionView;

    open spec fn view(&self) -> SuggestActionView {
        match self {
            SuggestAction::Fetch { cmd } => SuggestActionView::Fetch { cmd: cmd@ },
            SuggestAction::Answer(v) => SuggestActionView::Answer(strs_view(v@)),
        }
    }
}

/// What to do next for a completion query.
pub enum CompleteAction {
    /// Run this listing on the remote and hand its output back.
    Fetch { cmd: String },
    /// The text that replaces the input, if any.
    Answer(Option<String>),
}

/// The contents of a `CompleteAction`.
pub enum CompleteActionView {
    Fetch { cmd: Seq<char> },
    Answer(Option<Seq<char>>),
}

impl View for CompleteAction {
    type V = CompleteActionView;

    open spec fn view(&self) -> CompleteActionView {
        match self {
            CompleteAction::Fetch { cmd } => CompleteActionView::Fetch { cmd: cmd@ },
            CompleteAction::Answer(a) => CompleteActionView::Answer(
                match a {
                    Some(d) => Some(d@),
                    None => None,
                },
            ),
        }
    }
}

/// The completer after the listing of `parent` is recorded.
pub open spec fn recorded(c: CompleterView, parent: Seq<char>, stdout: Seq<char>) -> CompleterView {
    CompleterView { cache: Some((parent, listing_spec(stdout))), ..c }
}

/// Suggestions for a typed input: the subdirectories of its parent (`/`
/// for an empty input), filtered by the input with `~` expanded; the parent
/// is listed on the remote unless it was the last one listed.
pub open spec fn begin_suggestions_spec(c: CompleterView, input: Seq<char>) -> (
    DirQueryView,
    SuggestActionView,
) {
    let e = expand_home_spec(c.home_dir, input);
    let p = query_parent_spec(e);
    match lookup_spec(c, p) {
        DirLookupView::Cached(all) => (
            DirQueryView { expanded: e, pending: p, stage: QueryStage::Finished },
            SuggestActionView::Answer(suggestions_spec(e, all)),
        ),
        DirLookupView::Fetch(cmd) => (
            DirQueryView { expanded: e, pending: p, stage: QueryStage::AwaitListing },
            SuggestActionView::Fetch { cmd },
        ),
    }
}

/// The chosen directory is listed ahead unless remembered; the answer is the
/// directory without its trailing `/`.
pub open spec fn warm_spec(c: CompleterView, expanded: Seq<char>, d: Seq<char>) -> (
    DirQueryView,
    CompleteActionView,
) {
    match lookup_spec(c, d) {
        DirLookupView::Cached(_) => (
            DirQueryView { expanded, pending: d, stage: QueryStage::Finished },
            CompleteActionView::Answer(Some(trim_end_char_spec(d, '/'))),
        ),
        DirLookupView::Fetch(cmd) => (
            DirQueryView { expanded, pending: d, stage: QueryStage::AwaitWarm },
            CompleteActionView::Fetch { cmd },
        ),
    }
}

/// Given the parent's listing, Tab takes the first match (or nothing).
pub open spec fn settle_spec(c: CompleterView, expanded: Seq<char>, all: Seq<Seq<char>>) -> (
    DirQueryView,
    CompleteActionView,
) {
    match completion_choice_spec(expanded, all) {
        Some(d) => warm_spec(c, expanded, d),
        None => (
            DirQueryView { expanded, pending: expanded, stage: QueryStage::Finished },
            CompleteActionView::Answer(None),
        ),
    }
}

/// Completion on Tab: a highlighted suggestion wins; otherwise the first
/// listed subdirectory of the parent that matches the input.
pub open spec fn begin_completion_spec(
    c: CompleterView,
    input: Seq<char>,
    highlighted: Option<Seq<char>>,
) -> (DirQueryView, CompleteActionView) {
    match highlighted {
        Some(d) => warm_spec(c, input, d),
        None => {
            let e = expand_home_spec(c.home_dir, input);
            let p = query_parent_spec(e);
            match lookup_spec(c, p) {
                DirLookupView::Cached(all) => settle_spec(c, e, all),
                DirLookupView::Fetch(cmd) => (
                    DirQueryView { expanded: e, pending: p, stage: QueryStage::AwaitListing },
                    CompleteActionView::Fetch { cmd },
                ),
            }
        },
    }
}

/// Continuing a completion with a listing's output.
pub open spec fn resume_completion_spec(c: CompleterView, q: DirQueryView, stdout: Seq<char>) -> (
    CompleterView,
    DirQueryView,
    CompleteActionView,
) {
    match q.stage {
        QueryStage::AwaitListing => {
            let c2 = recorded(c, q.pending, stdout);
            let (q2, a) = settle_spec(c2, q.expanded, listing_spec(stdout));
            (c2, q2, a)
        },
        QueryStage::AwaitWarm => (
            recorded(c, q.pending, stdout),
            DirQueryView { stage: QueryStage::Finished, ..q },
            CompleteActionView::Answer(Some(trim_end_char_spec(q.pending, '/'))),
        ),
        QueryStage::Finished => (c, q, CompleteActionView::Answer(None)),
    }
}

impl RemoteDirCompleter {
    /// Starts the suggestions for `input`.
    pub fn begin_suggestions(&self, input: &str) -> (r: (DirQuery, SuggestAction))
        ensures
            (r.0@, r.1@) == begin_suggestions_spec(self@, input@),
    {
        let e = self.expand_home(input);
        let p = query_parent(e.as_str());
        match self.dirs_for_parent(p.as_str()) {
            DirLookup::Cached(all) => {
                let v = suggestions(e.as_str(), all);
                (DirQuery { expanded: e, pending: p, stage: QueryStage::Finished }, SuggestAction::Answer(v))
            },
            DirLookup::Fetch(cmd) => (
                DirQuery { expanded: e, pending: p, stage: QueryStage::AwaitListing },
                SuggestAction::Fetch { cmd },
            ),
        }
    }

    /// Finishes the suggestions with the output of the parent's listing,
    /// which is remembered.
    pub fn resume_suggestions(&mut self, q: &DirQuery, stdout: &str) -> (r: Vec<String>)
        ensures
            final(self)@ == recorded(old(self)@, q@.pending, stdout@),
            strs_view(r@) == suggestions_spec(q@.expanded, listing_spec(stdout@)),
    {
        let all = self.record_listing(q.pending.as_str(), stdout);
        suggestions(q.expanded.as_str(), all)
    }

    fn warm(&self, expanded: String, d: String) -> (r: (DirQuery, CompleteAction))
        ensures
            (r.0@, r.1@) == warm_spec(self@, expanded@, d@),
    {
        match self.dirs_for_parent(d.as_str()) {
            DirLookup::Cached(_) => {
                let t = completion_text(d.as_str());
                (DirQuery { expanded, pending: d, stage: QueryStage::Finished }, CompleteAction::Answer(Some(t)))
            },
            DirLookup::Fetch(cmd) => (
                DirQuery { expanded, pending: d, stage: QueryStage::AwaitWarm },
                CompleteAction::Fetch { cmd },
            ),
        }
    }

    fn settle(&self, expanded: String, all: &Vec<String>) -> (r: (DirQuery, CompleteAction))
        ensures
            (r.0@, r.1@) == settle_spec(self@, expanded@, strs_view(all@)),
    {
        match completion_choice(expanded.as_str(), all) {
            Some(d) => self.warm(expanded, d),
            None => {
                let pending = expanded.clone();
                (DirQuery { expanded, pending, stage: QueryStage::Finished }, CompleteAction::Answer(None))
            },
        }
    }

    /// Starts the completion for `input` when Tab is pressed, with the
    /// highlighted suggestion if there is one.
    pub fn begin_completion(&self, input: &str, highlighted: Option<String>) -> (r: (
        DirQuery,
        CompleteAction,
    ))
        ensures
            (r.0@, r.1@) == begin_completion_spec(
                self@,
                input@,
                match highlighted {
                    Some(d) => Some(d@),
                    None => None,
                },
            ),
    {
        match highlighted {
            Some(d) => self.warm(input.to_string(), d),
            None => {
                let e = self.expand_home(input);
                let p = query_parent(e.as_str());
                match self.dirs_for_parent(p.as_str()) {
                    DirLookup::Cached(all) => self.settle(e, &all),
                    DirLookup::Fetch(cmd) => (
                        DirQuery { expanded: e, pending: p, stage: QueryStage::AwaitListing },
                        CompleteAction::Fetch { cmd },
                    ),
                }
            },
        }
    }

    /// Continues a completion with the output of the listing it asked for,
    /// which is remembered.
    pub fn resume_completion(&mut self, q: &mut DirQuery, stdout: &str) -> (r: CompleteAction)
        ensures
            (final(self)@, final(q)@, r@) == resume_completion_spec(old(self)@, old(q)@, stdout@),
    {
        match q.stage {
            QueryStage::AwaitListing => {
                let all = self.record_listing(q.pending.as_str(), stdout);
                let (q2, a) = self.settle(q.expanded.clone(), &all);
                *q = q2;
                a
            },
            QueryStage::AwaitWarm => {
                self.record_listing(q.pending.as_str(), stdout);
                q.stage = QueryStage::Finished;
                CompleteAction::Answer(Some(completion_text(q.pending.as_str())))
            },
            QueryStage::Finished => CompleteAction::Answer(None),
        }
    }
}

/// A highlighted suggestion wins on Tab: the answer is that directory
/// without its trailing `/`, and the directory's listing is fetched ahead
/// (and then remembered) unless it already is.
pub proof fn lemma_highlighted_wins(c: CompleterView, input: Seq<char>, d: Seq<char>, stdout: Seq<char>)
    ensures
        ({
            let (q, a) = begin_completion_spec(c, input, Some(d));
            match a {
                CompleteActionView::Answer(x) => x == Some(trim_end_char_spec(d, '/'))
                    && lookup_spec(c, d) is Cached,
                CompleteActionView::Fetch { cmd } => {
                    let (c2, _, a2) = resume_completion_spec(c, q, stdout);
                    &&& cmd == find_cmd_spec(d)
                    &&& a2 == CompleteActionView::Answer(Some(trim_end_char_spec(d, '/')))
                    &&& lookup_spec(c2, d) == DirLookupView::Cached(listing_spec(stdout))
                },
            }
        }),
{
}

} // verus!
