use rnvim::cli::SessionAction;
use rnvim::session::{
    add, handle_action, mark_used, path_join, remove, resolve, sessions_for_host, sessions_path,
    sort_by_recent, xdg_data_dir, Session, SessionError,
};

fn sess(name: Option<&str>, host: &str, dir: &str, last_used: u64) -> Session {
    Session {
        name: name.map(|s| s.to_string()),
        host: host.to_string(),
        directory: dir.to_string(),
        port: 7777,
        server_path: "~/.local/bin/rnvim-server".to_string(),
        last_used,
        sync_config: false,
        local_config: None,
        remote_config: None,
    }
}

fn hosts_dirs(v: &[Session]) -> Vec<(String, String)> {
    v.iter().map(|s| (s.host.clone(), s.directory.clone())).collect()
}

#[test]
fn label_formats() {
    let mut s = sess(Some("work"), "me@box", "~/src", 1);
    assert_eq!(s.label(), "work (me@box:~/src)");
    s.sync_config = true;
    assert_eq!(s.label(), "work [sync] (me@box:~/src)");
    let mut t = sess(None, "box", "/tmp", 1);
    assert_eq!(t.label(), "box:/tmp");
    t.sync_config = true;
    assert_eq!(t.label(), "box:/tmp [sync]");
}

#[test]
fn sort_is_most_recent_first_and_stable() {
    let v = vec![
        sess(None, "a", "1", 5),
        sess(None, "b", "2", 9),
        sess(None, "c", "3", 5),
        sess(None, "d", "4", 7),
    ];
    let r = sort_by_recent(v);
    assert_eq!(
        hosts_dirs(&r),
        vec![
            ("b".into(), "2".into()),
            ("d".into(), "4".into()),
            ("a".into(), "1".into()),
            ("c".into(), "3".into())
        ]
    );
}

#[test]
fn sessions_for_host_filters_and_sorts() {
    let v = vec![
        sess(None, "a", "1", 1),
        sess(None, "b", "2", 9),
        sess(None, "a", "3", 5),
    ];
    let r = sessions_for_host(&v, "a");
    assert_eq!(hosts_dirs(&r), vec![("a".into(), "3".into()), ("a".into(), "1".into())]);
    assert!(sessions_for_host(&v, "zzz").is_empty());
}

#[test]
fn add_appends_new_session() {
    let mut v = vec![sess(None, "a", "1", 1)];
    add(&mut v, "b", "/x", 8000, "/srv/rnvim-server", Some("proj"), true, Some("/l".into()), None, 42);
    assert_eq!(v.len(), 2);
    let s = &v[1];
    assert_eq!(s.host, "b");
    assert_eq!(s.directory, "/x");
    assert_eq!(s.port, 8000);
    assert_eq!(s.server_path, "/srv/rnvim-server");
    assert_eq!(s.name.as_deref(), Some("proj"));
    assert!(s.sync_config);
    assert_eq!(s.local_config.as_deref(), Some("/l"));
    assert_eq!(s.remote_config, None);
    assert_eq!(s.last_used, 42);
}

#[test]
fn add_refreshes_existing_session_without_duplicating() {
    let mut v = vec![sess(Some("old"), "a", "1", 1), sess(None, "b", "2", 2)];
    v[0].local_config = Some("/keep".into());
    add(&mut v, "a", "1", 9999, "/other", None, true, None, Some("/r".into()), 50);
    assert_eq!(v.len(), 2);
    let s = &v[0];
    assert_eq!(s.name.as_deref(), Some("old"));
    assert_eq!(s.port, 7777);
    assert_eq!(s.server_path, "~/.local/bin/rnvim-server");
    assert_eq!(s.last_used, 50);
    assert!(s.sync_config);
    assert_eq!(s.local_config.as_deref(), Some("/keep"));
    assert_eq!(s.remote_config.as_deref(), Some("/r"));
    add(&mut v, "a", "1", 1, "/p", Some("new"), false, None, None, 60);
    assert_eq!(v.len(), 2);
    assert_eq!(v[0].name.as_deref(), Some("new"));
    assert!(!v[0].sync_config);
    assert_eq!(v[1].last_used, 2);
}

#[test]
fn resolve_by_index_name_and_host_dir() {
    let v = vec![
        sess(Some("web"), "a", "/srv", 3),
        sess(None, "b", "/x:y", 2),
        sess(Some("7"), "c", "/z", 1),
    ];
    assert!(matches!(resolve(&v, "0"), Ok(0)));
    assert!(matches!(resolve(&v, "+2"), Ok(2)));
    assert!(matches!(resolve(&v, "web"), Ok(0)));
    assert!(matches!(resolve(&v, "b:/x:y"), Ok(1)));
    assert!(matches!(resolve(&v, "a:/srv"), Ok(0)));
}

#[test]
fn resolve_errors() {
    let v = vec![sess(Some("web"), "a", "/srv", 3), sess(Some("7"), "c", "/z", 1)];
    match resolve(&v, "7") {
        Err(e @ SessionError::IndexOutOfRange { .. }) => {
            assert_eq!(e.message(), "index 7 out of range (have 2 sessions)");
        }
        _ => panic!("expected out of range"),
    }
    match resolve(&v, "nothing") {
        Err(e @ SessionError::NoMatch { .. }) => {
            assert_eq!(e.message(), "no session matching 'nothing'");
        }
        _ => panic!("expected no match"),
    }
    assert!(matches!(resolve(&v, "a:/other"), Err(SessionError::NoMatch { .. })));
    assert!(matches!(resolve(&v, "-1"), Err(SessionError::NoMatch { .. })));
    assert!(matches!(
        resolve(&v, "99999999999999999999999"),
        Err(SessionError::NoMatch { .. })
    ));
}

#[test]
fn remove_by_target() {
    let mut v = vec![sess(Some("web"), "a", "/srv", 3), sess(None, "b", "/x", 2)];
    assert!(remove(&mut v, "b:/x").is_ok());
    assert_eq!(hosts_dirs(&v), vec![("a".into(), "/srv".into())]);
    assert!(remove(&mut v, "3").is_err());
    assert_eq!(v.len(), 1);
    assert!(remove(&mut v, "0").is_ok());
    assert!(v.is_empty());
}

#[test]
fn listed_index_removes_that_session() {
    let mut v = vec![sess(None, "a", "1", 3), sess(None, "b", "2", 2), sess(None, "c", "3", 1)];
    let lines = handle_action(SessionAction::List, &mut v, 0).ok().unwrap();
    assert_eq!(lines, vec!["[0] a:1", "[1] b:2", "[2] c:3"]);
    assert!(remove(&mut v, "1").is_ok());
    assert_eq!(hosts_dirs(&v), vec![("a".into(), "1".into()), ("c".into(), "3".into())]);
}

#[test]
fn mark_used_touches_first_match_only() {
    let mut v = vec![sess(None, "a", "1", 3), sess(None, "a", "1", 2), sess(None, "b", "1", 1)];
    mark_used(&mut v, "a", "1", 77);
    assert_eq!(v[0].last_used, 77);
    assert_eq!(v[1].last_used, 2);
    mark_used(&mut v, "zz", "1", 88);
    assert_eq!(v.iter().map(|s| s.last_used).collect::<Vec<_>>(), vec![77, 2, 1]);
}

#[test]
fn marked_session_is_offered_first() {
    let mut v = vec![sess(None, "a", "1", 30), sess(None, "a", "2", 20)];
    mark_used(&mut v, "a", "2", 40);
    let offered = sessions_for_host(&v, "a");
    assert_eq!(offered[0].directory, "2");
}

#[test]
fn handle_action_list_add_rm() {
    let mut v: Vec<Session> = Vec::new();
    let lines = handle_action(SessionAction::List, &mut v, 0).ok().unwrap();
    assert_eq!(lines, vec!["No saved sessions."]);
    let add_action = SessionAction::Add {
        host: "me@h".into(),
        dir: "/w".into(),
        name: Some("n".into()),
        port: 7777,
        server_path: "/s".into(),
        sync_config: true,
    };
    let lines = handle_action(add_action, &mut v, 5).ok().unwrap();
    assert_eq!(lines, vec!["Session saved: me@h \u{2192} /w"]);
    assert_eq!(v.len(), 1);
    assert_eq!(v[0].last_used, 5);
    let lines = handle_action(SessionAction::List, &mut v, 0).ok().unwrap();
    assert_eq!(lines, vec!["[0] n [sync] (me@h:/w)"]);
    let rm = SessionAction::Rm { target: "nope".into() };
    match handle_action(rm, &mut v, 0) {
        Err(e) => assert_eq!(e.message(), "no session matching 'nope'"),
        Ok(_) => panic!("expected an error"),
    }
    let rm = SessionAction::Rm { target: "n".into() };
    let lines = handle_action(rm, &mut v, 0).ok().unwrap();
    assert_eq!(lines, vec!["Session 'n' removed."]);
    assert!(v.is_empty());
}

#[test]
fn data_dir_and_sessions_path() {
    assert_eq!(xdg_data_dir(Some("/xdg"), "/home/u"), "/xdg");
    assert_eq!(xdg_data_dir(Some("rel/dir"), "/home/u"), "/home/u/.local/share");
    assert_eq!(xdg_data_dir(Some(""), "/home/u/"), "/home/u/.local/share");
    assert_eq!(xdg_data_dir(None, ""), ".local/share");
    assert_eq!(sessions_path(None, "/home/u"), "/home/u/.local/share/rnvim/sessions.json");
    assert_eq!(sessions_path(Some("/d/"), "/h"), "/d/rnvim/sessions.json");
    assert_eq!(path_join("/a", "b"), "/a/b");
}

#[test]
fn added_session_is_offered_first() {
    let mut v = vec![sess(None, "a", "/old", 30), sess(None, "b", "/x", 35)];
    add(&mut v, "a", "/new", 7777, "/s", None, false, None, None, 40);
    let offered = sessions_for_host(&v, "a");
    assert_eq!(offered[0].directory, "/new");
    assert_eq!(offered[0].last_used, 40);
    assert_eq!(offered.len(), 2);
}

#[test]
fn same_labels_pick_the_first() {
    let v = vec![sess(None, "a", "/d", 2), sess(None, "a", "/d", 1)];
    let items = rnvim::prompt::session_menu(&v);
    assert_eq!(rnvim::prompt::session_choice(&items, "a:/d"), Some(0));
}
