//! Where the launcher keeps its files. Paths are handled as text; the base
//! directories come from the `dirs` crate, everything below them is this
//! module's own layout.

use vstd::prelude::*;

use crate::text::{chars_of, push_all, push_str, string_of};

verus! {

/// `rel` appended to `base` the way `PathBuf::push` does on Unix: an
/// absolute `rel` replaces `base`, otherwise one `/` separates the two
/// unless `base` is empty or already ends in one.
pub open spec fn join_path(base: Seq<char>, rel: Seq<char>) -> Seq<char> {
    if rel.len() > 0 && rel[0] == '/' {
        rel
    } else if base.len() > 0 && base.last() != '/' {
        base + seq!['/'] + rel
    } else {
        base + rel
    }
}

pub fn join(base: &str, rel: &str) -> (r: String)
    ensures
        r@ == join_path(base@, rel@),
{
    let b = chars_of(base);
    let rl = chars_of(rel);
    if rl.len() > 0 && rl[0] == '/' {
        return string_of(rl.as_slice());
    }
    let mut out = b;
    if out.len() > 0 && out[out.len() - 1] != '/' {
        out.push('/');
    }
    push_all(&mut out, rl.as_slice());
    string_of(out.as_slice())
}

/// `std::path::Path::is_file`: whether `path` names a regular file. What
/// is on disk decides, so the contract promises nothing of the answer.
#[verifier::external_body]
pub(crate) fn is_file(path: &str) -> (b: bool) {
    std::path::Path::new(path).is_file()
}

/// The directory a base that `dirs` may fail to find falls back to.
pub open spec fn or_here(base: Option<Seq<char>>) -> Seq<char> {
    match base {
        Some(b) => b,
        None => seq!['.'],
    }
}

/// `dirs::config_dir`, as text. It reads the environment, so the contract
/// promises nothing of the result.
#[verifier::external_body]
fn config_base() -> (r: Option<String>) {
    dirs::config_dir().map(|p| p.to_string_lossy().to_string())
}

/// `dirs::home_dir`, as text. It reads the environment, so the contract
/// promises nothing of the result.
#[verifier::external_body]
fn home_base() -> (r: Option<String>) {
    dirs::home_dir().map(|p| p.to_string_lossy().to_string())
}

/// `dirs::data_dir`, as text. It reads the environment, so the contract
/// promises nothing of the result.
#[verifier::external_body]
fn data_base_dir() -> (r: Option<String>) {
    dirs::data_dir().map(|p| p.to_string_lossy().to_string())
}

fn opt_view(o: &Option<String>) -> (r: Option<Vec<char>>)
    ensures
        match (o, r) {
            (Some(s), Some(v)) => v@ == s@,
            (None, None) => true,
            _ => false,
        },
{
    match o {
        Some(s) => Some(chars_of(s.as_str())),
        None => None,
    }
}

pub open spec fn opt_seq(o: Option<String>) -> Option<Seq<char>> {
    match o {
        Some(s) => Some(s@),
        None => None,
    }
}

/// `llauncher` under the configuration base directory.
pub open spec fn config_dir_of(base: Option<Seq<char>>) -> Seq<char> {
    join_path(or_here(base), "llauncher"@)
}

/// The launcher's data directory: `llauncher` under the platform data
/// directory, or under `~/.local/share` when there is none.
pub open spec fn data_base_of(data: Option<Seq<char>>, home: Option<Seq<char>>) -> Seq<char> {
    match data {
        Some(d) => join_path(d, "llauncher"@),
        None => join_path(join_path(join_path(or_here(home), ".local"@), "share"@), "llauncher"@),
    }
}

/// `Games/ArknightsEndfield` under the home directory.
pub open spec fn game_dir_of(home: Option<Seq<char>>) -> Seq<char> {
    join_path(join_path(or_here(home), "Games"@), "ArknightsEndfield"@)
}

fn here_or(base: Option<String>) -> (r: String)
    ensures
        r@ == or_here(opt_seq(base)),
{
    match base {
        Some(b) => b,
        None => {
            let mut v: Vec<char> = Vec::new();
            v.push('.');
            assert(v@ =~= seq!['.']);
            string_of(v.as_slice())
        },
    }
}

/// The configuration directory for a given configuration base.
pub fn config_dir_from(base: Option<String>) -> (r: String)
    ensures
        r@ == config_dir_of(opt_seq(base)),
{
    let b = here_or(base);
    join(b.as_str(), "llauncher")
}

/// The data directory for given data and home bases.
pub fn data_base_from(data: Option<String>, home: Option<String>) -> (r: String)
    ensures
        r@ == data_base_of(opt_seq(data), opt_seq(home)),
{
    match data {
        Some(d) => join(d.as_str(), "llauncher"),
        None => {
            let h = here_or(home);
            let a = join(h.as_str(), ".local");
            let b = join(a.as_str(), "share");
            join(b.as_str(), "llauncher")
        },
    }
}

/// The default game directory for a given home directory.
pub fn game_dir_from(home: Option<String>) -> (r: String)
    ensures
        r@ == game_dir_of(opt_seq(home)),
{
    let h = here_or(home);
    let a = join(h.as_str(), "Games");
    join(a.as_str(), "ArknightsEndfield")
}

/// Config directory: `~/.config/llauncher/` on Linux.
pub fn config_dir() -> (r: String)
    ensures
        exists|b: Option<Seq<char>>| r@ == config_dir_of(b),
{
    let b = config_base();
    let r = config_dir_from(b);
    assert(r@ == config_dir_of(opt_seq(b)));
    r
}

/// Base directory for launcher data.
pub fn data_base() -> (r: String)
    ensures
        exists|d: Option<Seq<char>>, h: Option<Seq<char>>| r@ == data_base_of(d, h),
{
    let d = data_base_dir();
    let h = if d.is_none() { home_base() } else { None };
    let r = data_base_from(d, h);
    assert(r@ == data_base_of(opt_seq(d), opt_seq(h)));
    r
}

/// Settings file path.
pub fn settings_path() -> (r: String)
    ensures
        exists|b: Option<Seq<char>>| r@ == join_path(config_dir_of(b), "settings.json"@),
{
    let d = config_dir();
    join(d.as_str(), "settings.json")
}

/// Game launch log path, next to the settings file.
pub fn launch_log_path() -> (r: String)
    ensures
        exists|b: Option<Seq<char>>| r@ == join_path(config_dir_of(b), "launch.log"@),
{
    let d = config_dir();
    join(d.as_str(), "launch.log")
}

/// Play-session journal path, next to the settings file.
pub fn sessions_path() -> (r: String)
    ensures
        exists|b: Option<Seq<char>>| r@ == join_path(config_dir_of(b), "sessions.json"@),
{
    let d = config_dir();
    join(d.as_str(), "sessions.json")
}

/// Default game install directory.
pub fn default_game_dir() -> (r: String)
    ensures
        exists|h: Option<Seq<char>>| r@ == game_dir_of(h),
{
    let h = home_base();
    let r = game_dir_from(h);
    assert(r@ == game_dir_of(opt_seq(h)));
    r
}

/// Default download (temporary) directory, inside the game directory.
pub fn default_download_dir() -> (r: String)
    ensures
        exists|h: Option<Seq<char>>| r@ == join_path(game_dir_of(h), "_download"@),
{
    let g = default_game_dir();
    join(g.as_str(), "_download")
}

/// Default Proton directory.
pub fn default_proton_dir() -> (r: String)
    ensures
        exists|d: Option<Seq<char>>, h: Option<Seq<char>>| r@ == join_path(data_base_of(d, h), "proton"@),
{
    let b = data_base();
    join(b.as_str(), "proton")
}

/// Default directory of the launcher's own Wine installs (macOS).
pub fn default_wine_dir() -> (r: String)
    ensures
        exists|d: Option<Seq<char>>, h: Option<Seq<char>>| r@ == join_path(data_base_of(d, h), "wine"@),
{
    let b = data_base();
    join(b.as_str(), "wine")
}

/// Default Proton prefix (compatdata) base directory, kept on the home
/// partition because the game may live on one that cannot hold the Unix
/// symlinks Proton creates.
pub fn default_proton_prefix_dir() -> (r: String)
    ensures
        exists|d: Option<Seq<char>>, h: Option<Seq<char>>| r@ == join_path(data_base_of(d, h), "prefix"@),
{
    let b = data_base();
    join(b.as_str(), "prefix")
}

/// The launcher's own log file, in the data directory.
pub fn log_path() -> (r: String)
    ensures
        exists|d: Option<Seq<char>>, h: Option<Seq<char>>| r@ == join_path(data_base_of(d, h), "llauncher.log"@),
{
    let b = data_base();
    join(b.as_str(), "llauncher.log")
}

} // verus!
