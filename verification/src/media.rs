//! Whether the host can play the animated launcher background. WebKitGTK
//! plays video through the host's GStreamer and, when the plugins it needs
//! are missing, takes the whole UI down with it; so the plugins are looked
//! for up front and the static image is served when they are absent.

use vstd::prelude::*;

use crate::paths::{is_file, join, join_path};
use crate::text::{string_views, to_owned_string};

verus! {

/// The variables through which GStreamer is told where plugins live, in the
/// order they are searched.
pub fn plugin_env_vars() -> (r: Vec<&'static str>)
    ensures
        r@.len() == 3,
        r@[0]@ == "GST_PLUGIN_SYSTEM_PATH_1_0"@,
        r@[1]@ == "GST_PLUGIN_PATH_1_0"@,
        r@[2]@ == "GST_PLUGIN_PATH"@,
{
    let mut r: Vec<&'static str> = Vec::new();
    r.push("GST_PLUGIN_SYSTEM_PATH_1_0");
    r.push("GST_PLUGIN_PATH_1_0");
    r.push("GST_PLUGIN_PATH");
    r
}

/// The system plugin directories of the distributions in use (Debian and
/// Ubuntu multiarch, Fedora and openSUSE, Arch).
pub open spec fn system_plugin_dirs() -> Seq<Seq<char>> {
    seq![
        "/usr/lib/x86_64-linux-gnu/gstreamer-1.0"@,
        "/usr/lib/aarch64-linux-gnu/gstreamer-1.0"@,
        "/usr/lib64/gstreamer-1.0"@,
        "/usr/lib/gstreamer-1.0"@,
    ]
}

/// The per-user plugin directory below `home`.
pub open spec fn user_plugin_dir(home: Seq<char>) -> Seq<char> {
    join_path(home, ".local/share/gstreamer-1.0/plugins"@)
}

/// Every directory GStreamer may load plugins from: those the environment
/// names (`env_dirs`, already split), then the system locations, then the
/// user's own.
pub fn plugin_dirs(env_dirs: Vec<String>, home: Option<String>) -> (r: Vec<String>)
    ensures
        string_views(r@) == string_views(env_dirs@) + system_plugin_dirs() + match home {
            Some(h) => seq![user_plugin_dir(h@)],
            None => Seq::<Seq<char>>::empty(),
        },
{
    let mut r = env_dirs;
    let ghost start = string_views(r@);
    r.push(to_owned_string("/usr/lib/x86_64-linux-gnu/gstreamer-1.0"));
    r.push(to_owned_string("/usr/lib/aarch64-linux-gnu/gstreamer-1.0"));
    r.push(to_owned_string("/usr/lib64/gstreamer-1.0"));
    r.push(to_owned_string("/usr/lib/gstreamer-1.0"));
    let ghost mid = string_views(r@);
    assert(mid =~= start + system_plugin_dirs());
    match home {
        Some(h) => {
            r.push(join(h.as_str(), ".local/share/gstreamer-1.0/plugins"));
            assert(string_views(r@) =~= mid + seq![user_plugin_dir(h@)]);
        },
        None => {
            assert(mid + Seq::<Seq<char>>::empty() =~= mid);
        },
    }
    r
}

/// The plugins WebKit cannot do without: `autodetect` provides the audio
/// sink it dies without, `playback` the pipeline it builds.
pub fn required_plugins() -> (r: Vec<&'static str>)
    ensures
        r@.len() == 2,
        r@[0]@ == "libgstautodetect.so"@,
        r@[1]@ == "libgstplayback.so"@,
{
    let mut r: Vec<&'static str> = Vec::new();
    r.push("libgstautodetect.so");
    r.push("libgstplayback.so");
    r
}

/// Some entry of `row` is set.
pub open spec fn any_set(row: Seq<bool>) -> bool {
    exists|j: int| 0 <= j < row.len() && #[trigger] row[j]
}

/// Every plugin `i` was found in some directory `j` (`found[i][j]`).
pub open spec fn every_found(found: Seq<Seq<bool>>) -> bool {
    forall|i: int| 0 <= i < found.len() ==> #[trigger] any_set(found[i])
}

pub open spec fn bool_views(v: Seq<Vec<bool>>) -> Seq<Seq<bool>> {
    v.map_values(|x: Vec<bool>| x@)
}

fn any_true(row: &[bool]) -> (b: bool)
    ensures
        b == any_set(row@),
{
    let mut j: usize = 0;
    while j < row.len()
        invariant
            j <= row@.len(),
            forall|m: int| 0 <= m < j ==> !#[trigger] row@[m],
        decreases row.len() - j,
    {
        if row[j] {
            return true;
        }
        j = j + 1;
    }
    false
}

/// Whether every plugin was found in at least one directory, given what was
/// found where: `found[i][j]` says plugin `i` is a file in directory `j`.
pub fn every_plugin_found(found: &[Vec<bool>]) -> (b: bool)
    ensures
        b == every_found(bool_views(found@)),
{
    let mut i: usize = 0;
    while i < found.len()
        invariant
            i <= found@.len(),
            forall|k: int| 0 <= k < i ==> #[trigger] any_set(bool_views(found@)[k]),
        decreases found.len() - i,
    {
        let row: &[bool] = found[i].as_slice();
        assert(row@ == bool_views(found@)[i as int]);
        if !any_true(row) {
            return false;
        }
        i = i + 1;
    }
    true
}

/// What a probe of `dirs` for `names` can report: one row per name, one
/// answer per directory.
pub open spec fn probe_shaped(found: Seq<Seq<bool>>, names: nat, dirs: nat) -> bool {
    found.len() == names && forall|k: int| 0 <= k < found.len() ==> (#[trigger] found[k]).len() == dirs
}

/// True when every named plugin is a file in at least one of the
/// directories, whatever the file system answered for each of them. With no
/// plugin asked for the answer is yes; with no directory to look in it is
/// no.
pub fn dirs_have_plugins(dirs: &[String], names: &[&str]) -> (b: bool)
    ensures
        exists|found: Seq<Seq<bool>>| probe_shaped(found, names@.len(), dirs@.len()) && b == every_found(found),
        names@.len() == 0 ==> b,
        dirs@.len() == 0 && names@.len() > 0 ==> !b,
{
    let mut found: Vec<Vec<bool>> = Vec::new();
    let mut i: usize = 0;
    while i < names.len()
        invariant
            i <= names@.len(),
            found@.len() == i,
            forall|k: int| 0 <= k < i ==> (#[trigger] found@[k])@.len() == dirs@.len(),
        decreases names.len() - i,
    {
        let mut row: Vec<bool> = Vec::new();
        let mut j: usize = 0;
        while j < dirs.len()
            invariant
                i < names@.len(),
                j <= dirs@.len(),
                row@.len() == j,
            decreases dirs.len() - j,
        {
            let path = join(dirs[j].as_str(), names[i]);
            row.push(is_file(path.as_str()));
            j = j + 1;
        }
        found.push(row);
        i = i + 1;
    }
    let b = every_plugin_found(found.as_slice());
    proof {
        let fv = bool_views(found@);
        assert forall|k: int| 0 <= k < fv.len() implies (#[trigger] fv[k]).len() == dirs@.len() by {
            assert(fv[k] == found@[k]@);
        }
        assert(probe_shaped(fv, names@.len(), dirs@.len()));
        if dirs@.len() == 0 && names@.len() > 0 {
            assert(bool_views(found@)[0] == found@[0]@);
            assert(found@[0]@.len() == 0);
            assert(!any_set(bool_views(found@)[0]));
        }
    }
    b
}

/// Whether the video backdrop may be attempted. On Windows the web view
/// decodes the video itself, so the answer is yes; elsewhere the plugin
/// directories (built by `plugin_dirs` from the environment and `home`) must
/// hold every required plugin.
pub fn can_play_video_background(windows: bool, env_dirs: Vec<String>, home: Option<String>) -> (b: bool)
    ensures
        windows ==> b,
        !windows ==> exists|found: Seq<Seq<bool>>|
            probe_shaped(found, 2, env_dirs@.len() + system_plugin_dirs().len() + if home is Some {
                1nat
            } else {
                0nat
            }) && b == every_found(found),
{
    if windows {
        return true;
    }
    let dirs = plugin_dirs(env_dirs, home);
    let names = required_plugins();
    proof {
        assert(string_views(dirs@).len() == dirs@.len());
        assert(dirs@.len() == env_dirs@.len() + system_plugin_dirs().len() + if home is Some {
            1nat
        } else {
            0nat
        }) by {
            assert(string_views(env_dirs@).len() == env_dirs@.len());
        }
    }
    dirs_have_plugins(dirs.as_slice(), names.as_slice())
}

} // verus!
