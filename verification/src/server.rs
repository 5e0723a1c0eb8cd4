//! The remote launcher: where it looks for `nvim`, and where nvim listens.

use vstd::prelude::*;
use crate::ssh::push_str;
use crate::text::{decimal, decimal_spec, lemma_decimal_parses_back, parse_usize_spec, strs_view};

verus! {

/// The address nvim listens on: `host:port`.
pub open spec fn listen_addr_spec(host: Seq<char>, port: u16) -> Seq<char> {
    host + ":"@ + decimal_spec(port as nat)
}

/// The address nvim listens on.
pub fn listen_addr(host: &str, port: u16) -> (r: String)
    ensures
        r@ == listen_addr_spec(host@, port),
{
    let mut r = host.to_string();
    r.append(":");
    r.append(decimal(port as u64).as_str());
    r
}

/// `$HOME/.local/bin/nvim`, or nothing when `HOME` is unset.
pub open spec fn home_nvim_spec(home: Option<Seq<char>>) -> Seq<char> {
    match home {
        Some(h) => h + "/.local/bin/nvim"@,
        None => Seq::empty(),
    }
}

/// Where nvim is looked for, in order: the user's own install, the `PATH`,
/// then the usual install locations.
pub open spec fn nvim_candidates_spec(home: Option<Seq<char>>) -> Seq<Seq<char>> {
    seq![
        home_nvim_spec(home),
        "nvim"@,
        "/usr/bin/nvim"@,
        "/usr/local/bin/nvim"@,
        "/opt/homebrew/bin/nvim"@,
        "/home/linuxbrew/.linuxbrew/bin/nvim"@,
    ]
}

/// The places to look for nvim, given the value of `HOME` if set.
pub fn nvim_candidates(home: Option<&str>) -> (r: Vec<String>)
    ensures
        strs_view(r@) == nvim_candidates_spec(
            match home {
                Some(h) => Some(h@),
                None => None,
            },
        ),
{
    let home_local = match home {
        Some(h) => {
            let mut p = h.to_string();
            p.append("/.local/bin/nvim");
            p
        },
        None => String::new(),
    };
    let mut v: Vec<String> = Vec::new();
    v.push(home_local);
    push_str(&mut v, "nvim");
    push_str(&mut v, "/usr/bin/nvim");
    push_str(&mut v, "/usr/local/bin/nvim");
    push_str(&mut v, "/opt/homebrew/bin/nvim");
    push_str(&mut v, "/home/linuxbrew/.linuxbrew/bin/nvim");
    assert(strs_view(v@) =~= nvim_candidates_spec(
        match home {
            Some(h) => Some(h@),
            None => None,
        },
    ));
    v
}

/// Index of the first non-empty candidate at or after `i`, or the length.
pub open spec fn next_nonempty(s: Seq<Seq<char>>, i: int) -> int
    decreases s.len() - i,
{
    if i >= s.len() {
        s.len() as int
    } else if s[i].len() > 0 {
        i
    } else {
        next_nonempty(s, i + 1)
    }
}

/// Goes through the candidates one at a time, skipping empty ones; the
/// caller tries each and stops at the first that runs.
pub struct NvimSearch {
    candidates: Vec<String>,
    next: usize,
    tried: Option<String>,
}

/// What the search asks for next.
pub enum NvimStep {
    /// Try to run this candidate and report whether it ran.
    Try(String),
    /// This candidate ran: it is the nvim to use.
    Found(String),
    /// No candidate ran.
    NotFound,
}

/// The contents of an `NvimStep`.
pub enum NvimStepView {
    Try(Seq<char>),
    Found(Seq<char>),
    NotFound,
}

impl View for NvimStep {
    type V = NvimStepView;

    open spec fn view(&self) -> NvimStepView {
        match self {
            NvimStep::Try(c) => NvimStepView::Try(c@),
            NvimStep::Found(c) => NvimStepView::Found(c@),
            NvimStep::NotFound => NvimStepView::NotFound,
        }
    }
}

/// One step of the search, from the candidates `s`, the position `i`, the
/// candidate handed out last (if any) and whether it ran: a candidate that
/// ran is the answer; otherwise the next non-empty candidate is tried, and
/// when none is left nothing was found.
pub open spec fn nvim_step_spec(
    s: Seq<Seq<char>>,
    i: int,
    tried: Option<Seq<char>>,
    ran: bool,
) -> ((Seq<Seq<char>>, int, Option<Seq<char>>), NvimStepView) {
    if tried is Some && ran {
        ((s, s.len() as int, None), NvimStepView::Found(tried->0))
    } else {
        let k = next_nonempty(s, i);
        if k < s.len() {
            ((s, k + 1, Some(s[k])), NvimStepView::Try(s[k]))
        } else {
            ((s, s.len() as int, None), NvimStepView::NotFound)
        }
    }
}

impl NvimSearch {
    /// The candidates, the position of the next one to consider, and the
    /// candidate handed out last by `step`: the view of the search.
    pub closed spec fn remaining(&self) -> (Seq<Seq<char>>, int, Option<Seq<char>>) {
        (
            strs_view(self.candidates@),
            self.next as int,
            match self.tried {
                Some(t) => Some(t@),
                None => None,
            },
        )
    }

    /// A search over `candidates`, from the first.
    pub fn new(candidates: Vec<String>) -> (r: NvimSearch)
        ensures
            r.remaining() == (strs_view(candidates@), 0int, None::<Seq<char>>),
    {
        NvimSearch { candidates, next: 0, tried: None }
    }

    /// The next step, told whether the candidate handed out last ran (the
    /// answer is not read before the first candidate is handed out).
    pub fn step(&mut self, ran: bool) -> (r: NvimStep)
        ensures
            (final(self).remaining(), r@) == nvim_step_spec(
                old(self).remaining().0,
                old(self).remaining().1,
                old(self).remaining().2,
                ran,
            ),
    {
        if ran {
            match self.tried.take() {
                Some(c) => {
                    self.next = self.candidates.len();
                    return NvimStep::Found(c);
                },
                None => {},
            }
        }
        match self.next_candidate() {
            Some(c) => {
                self.tried = Some(c.clone());
                NvimStep::Try(c)
            },
            None => {
                self.tried = None;
                NvimStep::NotFound
            },
        }
    }

    /// The next non-empty candidate, if any.
    pub fn next_candidate(&mut self) -> (r: Option<String>)
        ensures
            final(self).remaining().0 == old(self).remaining().0,
            final(self).remaining().1 <= final(self).remaining().0.len(),
            final(self).remaining().2 == old(self).remaining().2,
            ({
                let (s, i, _) = old(self).remaining();
                let k = next_nonempty(s, i);
                if k < s.len() {
                    r matches Some(c) && c@ == s[k] && final(self).remaining().1 == k + 1
                } else {
                    r is None && final(self).remaining().1 == s.len()
                }
            }),
    {
        let n = self.candidates.len();
        let ghost s = strs_view(self.candidates@);
        let ghost start = self.next as int;
        let ghost tried0 = self.tried;
        if self.next > n {
            self.next = n;
        }
        while self.next < n && self.candidates[self.next].as_str().unicode_len() == 0
            invariant
                n == self.candidates@.len(),
                s == strs_view(self.candidates@),
                self.next <= n,
                self.tried == tried0,
                next_nonempty(s, start) == next_nonempty(s, self.next as int),
            decreases n - self.next,
        {
            self.next = self.next + 1;
        }
        if self.next < n {
            let c = self.candidates[self.next].clone();
            self.next = self.next + 1;
            Some(c)
        } else {
            None
        }
    }
}

/// The non-empty elements of `s`, in order.
pub open spec fn nonempty_in(s: Seq<Seq<char>>) -> Seq<Seq<char>>
    decreases s.len(),
{
    if s.len() == 0 {
        s
    } else if s[0].len() > 0 {
        seq![s[0]] + nonempty_in(s.drop_first())
    } else {
        nonempty_in(s.drop_first())
    }
}

/// Bounds of `next_nonempty`.
pub proof fn lemma_next_nonempty_bounds(s: Seq<Seq<char>>, i: int)
    ensures
        i <= next_nonempty(s, i) || (i >= s.len() && next_nonempty(s, i) == s.len()),
        next_nonempty(s, i) <= s.len() || i >= s.len(),
    decreases s.len() - i,
{
    if i < s.len() && s[i].len() == 0 {
        lemma_next_nonempty_bounds(s, i + 1);
    }
}

/// What successive calls of `next_candidate` offer, from position `i`.
pub open spec fn offered_from(s: Seq<Seq<char>>, i: nat) -> Seq<Seq<char>>
    decreases s.len() - i,
{
    let k = next_nonempty(s, i as int);
    if i < s.len() && k < s.len() {
        proof {
            lemma_next_nonempty_bounds(s, i as int);
        }
        seq![s[k]] + offered_from(s, (k + 1) as nat)
    } else {
        Seq::empty()
    }
}

proof fn lemma_offered_from(s: Seq<Seq<char>>, i: nat)
    requires
        i <= s.len(),
    ensures
        offered_from(s, i) == nonempty_in(s.skip(i as int)),
    decreases s.len() - i,
{
    if i == s.len() {
        assert(s.skip(i as int) =~= Seq::<Seq<char>>::empty());
    } else {
        let t = s.skip(i as int);
        assert(t[0] == s[i as int]);
        assert(t.drop_first() =~= s.skip((i + 1) as int));
        lemma_offered_from(s, (i + 1) as nat);
        lemma_next_nonempty_bounds(s, i as int);
        if s[i as int].len() == 0 {
            assert(next_nonempty(s, i as int) == next_nonempty(s, (i + 1) as int));
            if i + 1 < s.len() {
                assert(offered_from(s, i) == offered_from(s, (i + 1) as nat));
            } else {
                assert(next_nonempty(s, (i + 1) as int) == s.len());
            }
        }
    }
}

/// The search for nvim tries exactly the non-empty candidates, in their
/// order: the user's own install first, then the `PATH`, then the usual
/// locations; an unset `HOME` only drops the first.
pub proof fn lemma_search_order(s: Seq<Seq<char>>)
    ensures
        offered_from(s, 0) == nonempty_in(s),
{
    lemma_offered_from(s, 0);
    assert(s.skip(0) =~= s);
}

/// The first of `s` that runs, if any.
pub open spec fn first_that_runs(s: Seq<Seq<char>>, runs: spec_fn(Seq<char>) -> bool) -> Option<
    Seq<char>,
>
    decreases s.len(),
{
    if s.len() == 0 {
        None
    } else if runs(s[0]) {
        Some(s[0])
    } else {
        first_that_runs(s.drop_first(), runs)
    }
}

/// Where the search ends when `step` is called over and over from the
/// state `st`, each answer after the first saying whether the candidate
/// just tried runs.
pub open spec fn search_outcome(
    st: (Seq<Seq<char>>, int, Option<Seq<char>>),
    ran: bool,
    runs: spec_fn(Seq<char>) -> bool,
) -> Option<Seq<char>>
    decreases st.0.len() - st.1,
{
    let (st2, a) = nvim_step_spec(st.0, st.1, st.2, ran);
    match a {
        NvimStepView::Found(c) => Some(c),
        NvimStepView::NotFound => None,
        NvimStepView::Try(c) => {
            proof {
                lemma_next_nonempty_bounds(st.0, st.1);
            }
            search_outcome(st2, runs(c), runs)
        },
    }
}

proof fn lemma_search_outcome_from(s: Seq<Seq<char>>, i: nat, runs: spec_fn(Seq<char>) -> bool)
    requires
        i <= s.len(),
    ensures
        search_outcome((s, i as int, None), false, runs) == first_that_runs(offered_from(s, i), runs),
    decreases s.len() - i,
{
    let k = next_nonempty(s, i as int);
    lemma_next_nonempty_bounds(s, i as int);
    let st = (s, i as int, None::<Seq<char>>);
    if i < s.len() && k < s.len() {
        let rest = offered_from(s, (k + 1) as nat);
        assert(offered_from(s, i) == seq![s[k]] + rest);
        assert((seq![s[k]] + rest).drop_first() =~= rest);
        assert((seq![s[k]] + rest)[0] == s[k]);
        let st2 = (s, k + 1, Some(s[k]));
        assert(nvim_step_spec(s, i as int, None, false) == (st2, NvimStepView::Try(s[k])));
        assert(search_outcome(st, false, runs) == search_outcome(st2, runs(s[k]), runs));
        if runs(s[k]) {
            assert(nvim_step_spec(s, k + 1, Some(s[k]), true).1 == NvimStepView::Found(s[k]));
        } else {
            lemma_search_outcome_from(s, (k + 1) as nat, runs);
            assert(search_outcome(st2, false, runs) == search_outcome(
                (s, k + 1, None),
                false,
                runs,
            ));
        }
    } else {
        assert(nvim_step_spec(s, i as int, None, false).1 == NvimStepView::NotFound);
        assert(offered_from(s, i) == Seq::<Seq<char>>::empty());
    }
}

/// Stepping the search from its start, answering each try with whether
/// that candidate runs, ends at the first non-empty candidate that runs, in
/// the order of the candidates; with none that runs, nothing is found.
pub proof fn lemma_search_finds_first_that_runs(
    s: Seq<Seq<char>>,
    runs: spec_fn(Seq<char>) -> bool,
)
    ensures
        search_outcome((s, 0, None), false, runs) == first_that_runs(nonempty_in(s), runs),
{
    lemma_search_outcome_from(s, 0, runs);
    lemma_offered_from(s, 0);
    assert(s.skip(0) =~= s);
}

/// nvim listens on the port it was given: the address is the host, a `:`,
/// and then text that parses back to exactly that port. So two different
/// ports never give the same address.
pub proof fn lemma_listen_addr_carries_port(host: Seq<char>, port: u16, other: u16)
    ensures
        listen_addr_spec(host, port).take(host.len() + 1int) == host.push(':'),
        parse_usize_spec(listen_addr_spec(host, port).skip(host.len() + 1int)) == Some(port as nat),
        port != other ==> listen_addr_spec(host, port) != listen_addr_spec(host, other),
{
    reveal_strlit(":");
    let a = listen_addr_spec(host, port);
    assert(a.take(host.len() + 1int) =~= host.push(':'));
    assert(a.skip(host.len() + 1int) =~= decimal_spec(port as nat));
    lemma_decimal_parses_back(port as nat);
    lemma_decimal_parses_back(other as nat);
    let b = listen_addr_spec(host, other);
    assert(b.skip(host.len() + 1int) =~= decimal_spec(other as nat));
}

} // verus!
