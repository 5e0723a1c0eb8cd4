use rnvim::github::{
    asset_name, find_asset, latest_release_url, release_request_headers, user_agent, Release,
    ReleaseAsset,
};
use rnvim::prompt::{non_empty, session_choice, session_menu};
use rnvim::server::{listen_addr, nvim_candidates, NvimSearch, NvimStep};
use rnvim::session::Session;

fn asset(name: &str) -> ReleaseAsset {
    ReleaseAsset { name: name.into(), browser_download_url: format!("https://dl/{}", name) }
}

#[test]
fn release_lookup() {
    assert_eq!(
        latest_release_url(),
        "https://api.github.com/repos/GNITOAHC/remote-ssh.nvim/releases/latest"
    );
    assert_eq!(asset_name("linux-x86_64"), "rnvim-server-linux-x86_64");
    let r = Release {
        tag_name: "v1".into(),
        assets: vec![asset("rnvim-server-darwin-aarch64"), asset("rnvim-server-linux-x86_64")],
    };
    assert!(matches!(find_asset(&r, "linux-x86_64"), Ok(1)));
    match find_asset(&r, "linux-aarch64") {
        Err(m) => {
            assert_eq!(m.asset_name, "rnvim-server-linux-aarch64");
            assert_eq!(m.tag_name, "v1");
            assert_eq!(m.available, vec!["rnvim-server-darwin-aarch64", "rnvim-server-linux-x86_64"]);
        }
        Ok(_) => panic!("expected a missing asset"),
    }
}

#[test]
fn session_picker_entries() {
    let s = Session {
        name: None,
        host: "h".into(),
        directory: "/d".into(),
        port: 1,
        server_path: "/s".into(),
        last_used: 0,
        sync_config: false,
        local_config: None,
        remote_config: None,
    };
    let items = session_menu(&vec![s]);
    assert_eq!(items, vec!["h:/d", "+ New session"]);
    assert_eq!(session_choice(&items, "h:/d"), Some(0));
    assert_eq!(session_choice(&items, "+ New session"), None);
    assert_eq!(session_choice(&items, "other"), None);
    assert_eq!(non_empty(Some(String::new())), None);
    assert_eq!(non_empty(Some("x".into())), Some("x".to_string()));
    assert_eq!(non_empty(None), None);
}

#[test]
fn server_launch_values() {
    assert_eq!(listen_addr("0.0.0.0", 7777), "0.0.0.0:7777");
    let c = nvim_candidates(Some("/home/u"));
    assert_eq!(c[0], "/home/u/.local/bin/nvim");
    assert_eq!(c.len(), 6);
    let mut search = NvimSearch::new(nvim_candidates(None));
    let mut seen = Vec::new();
    while let Some(x) = search.next_candidate() {
        seen.push(x);
    }
    assert_eq!(
        seen,
        vec![
            "nvim",
            "/usr/bin/nvim",
            "/usr/local/bin/nvim",
            "/opt/homebrew/bin/nvim",
            "/home/linuxbrew/.linuxbrew/bin/nvim"
        ]
    );
    assert_eq!(search.next_candidate(), None);
}

#[test]
fn release_request_header_values() {
    assert_eq!(user_agent(), format!("remote-ssh.nvim/{}", rnvim::platform::VERSION));
    assert_eq!(
        release_request_headers(),
        vec![
            ("Accept".to_string(), "application/vnd.github+json".to_string()),
            ("X-GitHub-Api-Version".to_string(), "2022-11-28".to_string()),
            ("User-Agent".to_string(), user_agent()),
        ]
    );
}

fn run_search(home: Option<&str>, runs: &[&str]) -> (Vec<String>, Option<String>) {
    let mut search = NvimSearch::new(nvim_candidates(home));
    let mut tried = Vec::new();
    let mut ran = false;
    loop {
        match search.step(ran) {
            NvimStep::Try(c) => {
                ran = runs.contains(&c.as_str());
                tried.push(c);
            }
            NvimStep::Found(c) => return (tried, Some(c)),
            NvimStep::NotFound => return (tried, None),
        }
    }
}

#[test]
fn nvim_search_stops_at_first_that_runs() {
    let (tried, found) = run_search(Some("/h"), &["/usr/bin/nvim", "/opt/homebrew/bin/nvim"]);
    assert_eq!(tried, vec!["/h/.local/bin/nvim", "nvim", "/usr/bin/nvim"]);
    assert_eq!(found, Some("/usr/bin/nvim".to_string()));

    let (tried, found) = run_search(Some("/h"), &["/h/.local/bin/nvim", "nvim"]);
    assert_eq!(tried, vec!["/h/.local/bin/nvim"]);
    assert_eq!(found, Some("/h/.local/bin/nvim".to_string()));

    let (tried, found) = run_search(None, &[]);
    assert_eq!(tried.len(), 5);
    assert_eq!(tried[0], "nvim");
    assert_eq!(found, None);
}
