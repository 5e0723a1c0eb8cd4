use rnvim::completer::{
    completion_choice, completion_text, parse_dir_listing, query_parent, suggestions, DirLookup,
    RemoteDirCompleter,
};

fn parent_of(s: &str) -> &str {
    RemoteDirCompleter::parent_of(s)
}

fn find_cmd(s: &str) -> String {
    RemoteDirCompleter::find_cmd(s)
}

fn completer() -> RemoteDirCompleter {
    RemoteDirCompleter::new("me@box".into(), "/tmp/s".into(), "/home/me".into())
}

#[test]
fn expand_and_parent() {
    let c = completer();
    assert_eq!(c.expand_home("~/src"), "/home/me/src");
    assert_eq!(c.expand_home("/etc"), "/etc");
    let no_home = RemoteDirCompleter::new("h".into(), "/s".into(), String::new());
    assert_eq!(no_home.expand_home("~/src"), "~/src");
    assert_eq!(parent_of("/home/user"), "/home/");
    assert_eq!(parent_of("/home/"), "/home/");
    assert_eq!(parent_of(""), "");
    assert_eq!(parent_of("rel"), "");
    assert_eq!(query_parent(""), "/");
    assert_eq!(query_parent("/home/us"), "/home/");
}

#[test]
fn listing_command() {
    assert_eq!(
        find_cmd(""),
        "find . -maxdepth 1 -mindepth 1 -type d 2>/dev/null | sort | head -50 || true"
    );
    assert_eq!(
        find_cmd("/it's/"),
        "find '/its/' -maxdepth 1 -mindepth 1 -type d 2>/dev/null | sort | head -50 || true"
    );
}

#[test]
fn listing_parse() {
    assert_eq!(
        parse_dir_listing("/home/me/.config\n/home/me/src/\r\n\n/home/me/x//\n"),
        vec!["/home/me/.config/", "/home/me/src/", "/home/me/x/"]
    );
    assert!(parse_dir_listing("").is_empty());
    assert_eq!(parse_dir_listing("/a\r"), vec!["/a\r/"]);
}

#[test]
fn filtering_and_completion() {
    let all: Vec<String> = vec!["/home/a/".into(), "/home/b/".into(), "/home/ab/".into()];
    assert_eq!(suggestions("", all.clone()), all);
    assert_eq!(suggestions("/home/a", all.clone()), vec!["/home/a/", "/home/ab/"]);
    assert_eq!(completion_choice("", &all), Some("/home/a/".to_string()));
    assert_eq!(completion_choice("/home/b", &all), Some("/home/b/".to_string()));
    assert_eq!(completion_choice("/x", &all), None);
    assert_eq!(completion_choice("", &Vec::new()), None);
    assert_eq!(completion_text("/home/a/"), "/home/a");
}

#[test]
fn listing_is_remembered_per_parent() {
    let mut c = completer();
    match c.dirs_for_parent("/home/") {
        DirLookup::Fetch(cmd) => assert_eq!(cmd, find_cmd("/home/")),
        DirLookup::Cached(_) => panic!("nothing listed yet"),
    }
    let got = c.record_listing("/home/", "/home/me\n");
    assert_eq!(got, vec!["/home/me/"]);
    match c.dirs_for_parent("/home/") {
        DirLookup::Cached(v) => assert_eq!(v, vec!["/home/me/"]),
        DirLookup::Fetch(_) => panic!("expected the remembered listing"),
    }
    assert!(matches!(c.dirs_for_parent("/etc/"), DirLookup::Fetch(_)));
    assert_eq!(
        c.run_ssh_args("ls"),
        vec!["-o", "ControlMaster=no", "-o", "ControlPath=/tmp/s", "me@box", "ls"]
    );
}

fn fetch_cmd_s(a: rnvim::completer::SuggestAction) -> String {
    match a {
        rnvim::completer::SuggestAction::Fetch { cmd } => cmd,
        rnvim::completer::SuggestAction::Answer(v) => panic!("answered {:?}", v),
    }
}

fn fetch_cmd_c(a: &rnvim::completer::CompleteAction) -> String {
    match a {
        rnvim::completer::CompleteAction::Fetch { cmd } => cmd.clone(),
        rnvim::completer::CompleteAction::Answer(r) => panic!("answered {:?}", r),
    }
}

fn answer_c(a: rnvim::completer::CompleteAction) -> Option<String> {
    match a {
        rnvim::completer::CompleteAction::Answer(r) => r,
        rnvim::completer::CompleteAction::Fetch { cmd } => panic!("fetch {}", cmd),
    }
}

#[test]
fn suggestions_fetch_then_cached() {
    let mut c = completer();
    let (q, a) = c.begin_suggestions("~/s");
    assert_eq!(fetch_cmd_s(a), find_cmd("/home/me/"));
    let v = c.resume_suggestions(&q, "/home/me/src\n/home/me/bin\n/home/me/share/\n");
    assert_eq!(v, vec!["/home/me/src/", "/home/me/share/"]);
    // The same parent is now remembered: no second listing.
    let (_, a2) = c.begin_suggestions("/home/me/b");
    match a2 {
        rnvim::completer::SuggestAction::Answer(v) => assert_eq!(v, vec!["/home/me/bin/"]),
        rnvim::completer::SuggestAction::Fetch { cmd } => panic!("fetched {}", cmd),
    }
}

#[test]
fn suggestions_empty_input_lists_root() {
    let mut c = completer();
    let (q, a) = c.begin_suggestions("");
    assert_eq!(fetch_cmd_s(a), find_cmd("/"));
    assert_eq!(c.resume_suggestions(&q, "/etc\n/usr\n"), vec!["/etc/", "/usr/"]);
}

#[test]
fn completion_highlighted_wins() {
    let mut c = completer();
    // Prime the parent so that the first match would be /home/me/a/.
    let (q, _) = c.begin_suggestions("/home/me/");
    c.resume_suggestions(&q, "/home/me/a\n/home/me/b\n");
    let (mut q, a) = c.begin_completion("/home/me/", Some("/home/me/b/".to_string()));
    assert_eq!(fetch_cmd_c(&a), find_cmd("/home/me/b/"));
    let a2 = c.resume_completion(&mut q, "/home/me/b/x\n");
    assert_eq!(answer_c(a2), Some("/home/me/b".to_string()));
    // The chosen directory's listing is remembered.
    assert!(matches!(c.dirs_for_parent("/home/me/b/"), DirLookup::Cached(v) if v == vec!["/home/me/b/x/"]));
}

#[test]
fn completion_first_match_after_two_listings() {
    let mut c = completer();
    let (mut q, a) = c.begin_completion("~/s", None);
    assert_eq!(fetch_cmd_c(&a), find_cmd("/home/me/"));
    let a2 = c.resume_completion(&mut q, "/home/me/bin\n/home/me/src\n/home/me/share\n");
    assert_eq!(fetch_cmd_c(&a2), find_cmd("/home/me/src/"));
    let a3 = c.resume_completion(&mut q, "");
    assert_eq!(answer_c(a3), Some("/home/me/src".to_string()));
}

#[test]
fn completion_no_match() {
    let mut c = completer();
    let (mut q, a) = c.begin_completion("/opt/zz", None);
    assert_eq!(fetch_cmd_c(&a), find_cmd("/opt/"));
    let a2 = c.resume_completion(&mut q, "/opt/a\n");
    assert_eq!(answer_c(a2), None);
}

#[test]
fn completion_cached_choice_answers_at_once() {
    let mut c = completer();
    let (q, _) = c.begin_suggestions("/x/");
    c.resume_suggestions(&q, "/x/\n");
    // "/x/" lists itself, so choosing it needs no further listing.
    let (_, a) = c.begin_completion("/x/", None);
    assert_eq!(answer_c(a), Some("/x".to_string()));
}
