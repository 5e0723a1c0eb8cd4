//! What the interactive pickers offer, and how an answer is read.

use vstd::prelude::*;
use crate::session::{label_spec, views, Session};
use crate::text::{index_of, lemma_index_of_props, position, str_eq, strs_view};

verus! {

/// The last entry of a session picker, which starts a new session.
pub const NEW_SESSION_ITEM: &'static str = "+ New session";

/// The entries of a session picker: each session's label, then the entry
/// for a new session.
pub open spec fn session_menu_spec(s: Seq<crate::session::SessionView>) -> Seq<Seq<char>> {
    Seq::new(s.len(), |i: int| label_spec(s[i])).push(NEW_SESSION_ITEM@)
}

/// The entries of a session picker.
pub fn session_menu(sessions: &Vec<Session>) -> (r: Vec<String>)
    ensures
        strs_view(r@) == session_menu_spec(views(sessions@)),
{
    let mut items: Vec<String> = Vec::new();
    let mut i: usize = 0;
    while i < sessions.len()
        invariant
            i <= sessions@.len(),
            items@.len() == i,
            forall|j: int| 0 <= j < i ==> (#[trigger] items@[j])@ == label_spec(sessions@[j]@),
        decreases sessions@.len() - i,
    {
        items.push(sessions[i].label());
        i = i + 1;
    }
    items.push(NEW_SESSION_ITEM.to_string());
    assert(strs_view(items@) =~= session_menu_spec(views(sessions@)));
    items
}

/// Which session an answer picks: none for the new-session entry, else the
/// first entry equal to the answer.
pub open spec fn session_choice_spec(items: Seq<Seq<char>>, ans: Seq<char>) -> Option<int> {
    if ans == NEW_SESSION_ITEM@ {
        None
    } else if index_of(items, ans) < items.len() {
        Some(index_of(items, ans))
    } else {
        None
    }
}

/// Reads the answer of a session picker.
pub fn session_choice(items: &Vec<String>, ans: &str) -> (r: Option<usize>)
    ensures
        match r {
            Some(i) => session_choice_spec(strs_view(items@), ans@) == Some(i as int),
            None => session_choice_spec(strs_view(items@), ans@) is None,
        },
{
    if str_eq(ans, NEW_SESSION_ITEM) {
        return None;
    }
    let k = position(items, ans);
    if k < items.len() {
        Some(k)
    } else {
        None
    }
}

/// An answer to an optional text prompt: an empty answer counts as none.
pub fn non_empty(ans: Option<String>) -> (r: Option<String>)
    ensures
        match ans {
            Some(s) => if s@.len() > 0 {
                r matches Some(t) && t@ == s@
            } else {
                r is None
            },
            None => r is None,
        },
{
    match ans {
        Some(s) => if s.as_str().unicode_len() > 0 {
            Some(s)
        } else {
            None
        },
        None => None,
    }
}

/// No session's label is the new-session entry: a label always holds the
/// `:` between host and directory, and the entry holds none.
pub proof fn lemma_label_not_new_item(s: crate::session::SessionView)
    ensures
        label_spec(s) != NEW_SESSION_ITEM@,
{
    reveal_strlit("+ New session");
    reveal_strlit(":");
    reveal_strlit(" [sync]");
    reveal_strlit("");
    reveal_strlit(" (");
    reveal_strlit(")");
    let x = label_spec(s);
    let sync = if s.sync_config {
        " [sync]"@
    } else {
        ""@
    };
    let k: int = match s.name {
        Some(n) => (n.len() + sync.len() + 2 + s.host.len()) as int,
        None => s.host.len() as int,
    };
    assert(0 <= k < x.len() && x[k] == ':');
    if x == NEW_SESSION_ITEM@ {
        let t = "+ New session"@;
        assert(NEW_SESSION_ITEM@ == t);
        assert(forall|j: int| 0 <= j < t.len() ==> t[j] != ':');
    }
}

/// Picking reads back what the picker showed: the new-session entry picks no
/// session, and the entry shown for a session picks that session, or an
/// earlier one with the same label.
pub proof fn lemma_menu_choice(s: Seq<crate::session::SessionView>, i: int)
    requires
        0 <= i < s.len(),
    ensures
        session_choice_spec(session_menu_spec(s), NEW_SESSION_ITEM@) is None,
        session_choice_spec(session_menu_spec(s), label_spec(s[i])) matches Some(k) && 0 <= k
            <= i && label_spec(s[k]) == label_spec(s[i]),
{
    let items = session_menu_spec(s);
    let x = label_spec(s[i]);
    lemma_label_not_new_item(s[i]);
    assert(items[i] == x);
    lemma_index_of_props(items, x);
    let k = index_of(items, x);
    assert(k <= i);
    assert(items[k] == label_spec(s[k]));
}

} // verus!
