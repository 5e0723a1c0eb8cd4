//! Releases of the server binary on GitHub.

use vstd::prelude::*;
use crate::platform::{GITHUB_API_BASE, GITHUB_REPO, VERSION};
use crate::text::{index_of, position, strs_view};

verus! {

/// A published release.
pub struct Release {
    pub tag_name: String,
    pub assets: Vec<ReleaseAsset>,
}

/// A downloadable file of a release.
pub struct ReleaseAsset {
    pub name: String,
    pub browser_download_url: String,
}

/// The names of a list of assets.
pub open spec fn asset_names(a: Seq<ReleaseAsset>) -> Seq<Seq<char>> {
    a.map_values(|x: ReleaseAsset| x.name@)
}

/// The API endpoint that describes the latest release.
pub open spec fn latest_release_url_spec() -> Seq<char> {
    GITHUB_API_BASE@ + "/repos/"@ + GITHUB_REPO@ + "/releases/latest"@
}

/// The API endpoint that describes the latest release.
pub fn latest_release_url() -> (r: String)
    ensures
        r@ == latest_release_url_spec(),
{
    let mut r = GITHUB_API_BASE.to_string();
    r.append("/repos/");
    r.append(GITHUB_REPO);
    r.append("/releases/latest");
    r
}

/// The `User-Agent` of every request: `remote-ssh.nvim/<version>`.
pub open spec fn user_agent_spec() -> Seq<char> {
    "remote-ssh.nvim/"@ + VERSION@
}

/// The `User-Agent` of every request.
pub fn user_agent() -> (r: String)
    ensures
        r@ == user_agent_spec(),
{
    let mut r = "remote-ssh.nvim/".to_string();
    r.append(VERSION);
    r
}

/// Header names and values, as text.
pub open spec fn headers_view(h: Seq<(String, String)>) -> Seq<(Seq<char>, Seq<char>)> {
    h.map_values(|p: (String, String)| (p.0@, p.1@))
}

/// The headers of the request for the latest release, in order: the GitHub
/// JSON media type, the API version, and the user agent.
pub open spec fn release_request_headers_spec() -> Seq<(Seq<char>, Seq<char>)> {
    seq![
        ("Accept"@, "application/vnd.github+json"@),
        ("X-GitHub-Api-Version"@, "2022-11-28"@),
        ("User-Agent"@, user_agent_spec()),
    ]
}

/// The headers of the request for the latest release.
pub fn release_request_headers() -> (r: Vec<(String, String)>)
    ensures
        headers_view(r@) == release_request_headers_spec(),
{
    let mut v: Vec<(String, String)> = Vec::new();
    v.push(("Accept".to_string(), "application/vnd.github+json".to_string()));
    v.push(("X-GitHub-Api-Version".to_string(), "2022-11-28".to_string()));
    v.push(("User-Agent".to_string(), user_agent()));
    assert(headers_view(v@) =~= release_request_headers_spec());
    v
}

/// The name of the server binary asset for a platform suffix.
pub open spec fn asset_name_spec(platform: Seq<char>) -> Seq<char> {
    "rnvim-server-"@ + platform
}

/// The name of the server binary asset for a platform suffix.
pub fn asset_name(platform: &str) -> (r: String)
    ensures
        r@ == asset_name_spec(platform@),
{
    let mut r = "rnvim-server-".to_string();
    r.append(platform);
    r
}

/// A release without the asset for the wanted platform.
pub struct MissingAsset {
    /// The asset that was looked for.
    pub asset_name: String,
    /// The release that lacks it.
    pub tag_name: String,
    /// The names of the assets the release has.
    pub available: Vec<String>,
}

/// Finds the server binary for `platform` among the assets of `release`: the
/// first asset with its name.
pub fn find_asset(release: &Release, platform: &str) -> (r: Result<usize, MissingAsset>)
    ensures
        match r {
            Ok(i) => i == index_of(asset_names(release.assets@), asset_name_spec(platform@)) && i
                < release.assets@.len(),
            Err(m) => index_of(asset_names(release.assets@), asset_name_spec(platform@))
                == release.assets@.len() && m.asset_name@ == asset_name_spec(platform@)
                && m.tag_name@ == release.tag_name@ && strs_view(m.available@) == asset_names(
                release.assets@,
            ),
        },
{
    let wanted = asset_name(platform);
    let mut names: Vec<String> = Vec::new();
    let mut i: usize = 0;
    while i < release.assets.len()
        invariant
            i <= release.assets@.len(),
            strs_view(names@) == asset_names(release.assets@).take(i as int),
        decreases release.assets@.len() - i,
    {
        names.push(release.assets[i].name.clone());
        assert(asset_names(release.assets@).take(i + 1) =~= asset_names(release.assets@).take(
            i as int,
        ).push(release.assets@[i as int].name@));
        i = i + 1;
    }
    assert(asset_names(release.assets@).take(i as int) =~= asset_names(release.assets@));
    let k = position(&names, wanted.as_str());
    if k < names.len() {
        Ok(k)
    } else {
        Err(MissingAsset { asset_name: wanted, tag_name: release.tag_name.clone(), available: names })
    }
}

} // verus!
