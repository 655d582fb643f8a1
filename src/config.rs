//! The tool's settings and the on-disk layout under its root directory.

use vstd::prelude::*;
use vstd::string::StringExecFns;
use crate::types::ProviderKind;

verus! {

/// `dir` and a relative `name` joined with one separator, as a path join of
/// a relative component does.
pub open spec fn joined(dir: Seq<char>, name: Seq<char>) -> Seq<char> {
    if dir.len() == 0 {
        name
    } else if dir.last() == '/' {
        dir + name
    } else {
        dir + "/"@ + name
    }
}

/// Join a relative `name` under `dir`.
pub fn join_path(dir: &str, name: &str) -> (r: String)
    ensures
        r@ == joined(dir@, name@),
{
    let n = dir.unicode_len();
    if n == 0 {
        return name.to_owned();
    }
    let last = vstd::string::StrSliceExecFns::get_char(dir, n - 1);
    if last == '/' {
        dir.to_owned().concat(name)
    } else {
        let r = dir.to_owned().concat("/").concat(name);
        r
    }
}

/// The tool's settings.
#[derive(Debug, Clone)]
pub struct Config {
    pub default_provider: Option<ProviderKind>,
    /// The root directory of all state.
    pub plr_dir: String,
}

impl Default for Config {
    /// No default provider; state under `.plr`.
    fn default() -> (r: Config)
        ensures
            r.default_provider is None,
            r.plr_dir@ == ".plr"@,
    {
        Config { default_provider: None, plr_dir: String::from_str(".plr") }
    }
}

impl Config {
    pub fn config_path(&self) -> (r: String)
        ensures
            r@ == joined(self.plr_dir@, "config.toml"@),
    {
        join_path(self.plr_dir.as_str(), "config.toml")
    }

    pub fn credentials_dir(&self) -> (r: String)
        ensures
            r@ == joined(self.plr_dir@, "credentials"@),
    {
        join_path(self.plr_dir.as_str(), "credentials")
    }

    pub fn playlists_dir(&self) -> (r: String)
        ensures
            r@ == joined(self.plr_dir@, "playlists"@),
    {
        join_path(self.plr_dir.as_str(), "playlists")
    }
}

/// The directory of one playlist's state.
pub open spec fn playlist_dir_of(root: Seq<char>, playlist_id: Seq<char>) -> Seq<char> {
    joined(joined(root, "playlists"@), playlist_id)
}

pub fn playlist_dir(root: &str, playlist_id: &str) -> (r: String)
    ensures
        r@ == playlist_dir_of(root@, playlist_id@),
{
    let p = join_path(root, "playlists");
    join_path(p.as_str(), playlist_id)
}

/// Where the head snapshot of a playlist is stored.
pub fn snapshot_path(root: &str, playlist_id: &str) -> (r: String)
    ensures
        r@ == joined(playlist_dir_of(root@, playlist_id@), "playlist.yaml"@),
{
    let d = playlist_dir(root, playlist_id);
    join_path(d.as_str(), "playlist.yaml")
}

/// Where the snapshot with content hash `hash` is stored.
pub fn object_path(root: &str, playlist_id: &str, hash: &str) -> (r: String)
    ensures
        r@ == joined(joined(playlist_dir_of(root@, playlist_id@), "objects"@), hash@ + ".yaml"@),
{
    let d = playlist_dir(root, playlist_id);
    let o = join_path(d.as_str(), "objects");
    let f = hash.to_owned().concat(".yaml");
    join_path(o.as_str(), f.as_str())
}

/// Where the staged patch of a playlist is stored.
pub fn staged_path(root: &str, playlist_id: &str) -> (r: String)
    ensures
        r@ == joined(playlist_dir_of(root@, playlist_id@), "staged.yaml"@),
{
    let d = playlist_dir(root, playlist_id);
    join_path(d.as_str(), "staged.yaml")
}

/// Where the journal of a playlist is stored.
pub fn journal_path(root: &str, playlist_id: &str) -> (r: String)
    ensures
        r@ == joined(playlist_dir_of(root@, playlist_id@), "journal.log"@),
{
    let d = playlist_dir(root, playlist_id);
    join_path(d.as_str(), "journal.log")
}

/// Where the credentials of a provider are stored.
pub fn credentials_path(root: &str, provider: ProviderKind) -> (r: String)
    ensures
        r@ == joined(joined(root@, "credentials"@), match provider {
            ProviderKind::Spotify => "spotify.json"@,
            ProviderKind::Youtube => "youtube.json"@,
        }),
{
    let d = join_path(root, "credentials");
    match provider {
        ProviderKind::Spotify => join_path(d.as_str(), "spotify.json"),
        ProviderKind::Youtube => join_path(d.as_str(), "youtube.json"),
    }
}

} // verus!
