//! The game's Wine prefix: what a shader-cache sweep removes, and how a
//! prefix backup is made and recognised. The app walks the directories and
//! runs `tar`; this module decides.

use vstd::prelude::*;

use crate::error::AppError;
use crate::text::{chars_of, ends_with, has_suffix, lines, lines_chars, starts_with, to_owned_string, views};

verus! {

/// Where a prefix lives and whether Proton has created it yet.
#[derive(Debug, Clone)]
pub struct PrefixInfo {
    pub path: String,
    pub exists: bool,
}

/// What a shader-cache sweep removed.
#[derive(Debug, Clone, Copy)]
pub struct ShaderCacheResult {
    pub files_removed: u64,
    pub bytes_freed: u64,
}

/// `a + b`, held at `u64::MAX`.
pub open spec fn sat_add(a: u64, b: u64) -> u64 {
    if a + b > u64::MAX {
        u64::MAX
    } else {
        (a + b) as u64
    }
}

impl ShaderCacheResult {
    pub fn new() -> (r: Self)
        ensures
            r.files_removed == 0 && r.bytes_freed == 0,
    {
        ShaderCacheResult { files_removed: 0, bytes_freed: 0 }
    }

    /// Count one removed file of `size` bytes. The totals stop at
    /// `u64::MAX` rather than wrap.
    pub fn count(&mut self, size: u64)
        ensures
            final(self).files_removed == sat_add(old(self).files_removed, 1),
            final(self).bytes_freed == sat_add(old(self).bytes_freed, size),
    {
        self.files_removed = self.files_removed.saturating_add(1);
        self.bytes_freed = self.bytes_freed.saturating_add(size);
    }
}

/// How deep under the game directory the sweep looks for caches: they sit
/// next to the executable, and a shallow bound keeps the scan of a large
/// install short.
pub const MAX_SCAN_DEPTH: u32 = 3;

/// Whether a directory at `depth` below the game directory is scanned.
pub fn scans_at(depth: u32) -> (b: bool)
    ensures
        b == (depth <= MAX_SCAN_DEPTH),
{
    depth <= MAX_SCAN_DEPTH
}

/// A DXVK state cache, finished or half-written.
pub open spec fn dxvk_cache(name: Seq<char>) -> bool {
    ends_with(name, ".dxvk-cache"@) || ends_with(name, ".dxvk-cache.tmp"@)
}

pub fn is_dxvk_cache_name(name: &str) -> (b: bool)
    ensures
        b == dxvk_cache(name@),
{
    let n = chars_of(name);
    let a = chars_of(".dxvk-cache");
    let t = chars_of(".dxvk-cache.tmp");
    has_suffix(n.as_slice(), a.as_slice()) || has_suffix(n.as_slice(), t.as_slice())
}

/// `s` without every leading `./`, as `trim_start_matches("./")`.
pub open spec fn without_dot_slash(s: Seq<char>) -> Seq<char>
    decreases s.len(),
{
    if s.len() >= 2 && s[0] == '.' && s[1] == '/' {
        without_dot_slash(s.subrange(2, s.len() as int))
    } else {
        s
    }
}

/// A `tar -t` listing holds the prefix: some entry, read without its
/// leading `./`, starts with `pfx`.
pub open spec fn lists_prefix(listing: Seq<char>) -> bool {
    exists|i: int| 0 <= i < lines(listing).len() && #[trigger] starts_with(without_dot_slash(lines(listing)[i]), "pfx"@)
}

fn strip_dot_slash(s: &[char]) -> (r: usize)
    ensures
        r <= s@.len(),
        s@.subrange(r as int, s@.len() as int) == without_dot_slash(s@),
{
    let mut k: usize = 0;
    assert(s@.subrange(0, s@.len() as int) =~= s@);
    while k < s.len() && s.len() - k >= 2 && s[k] == '.' && s[k + 1] == '/'
        invariant
            k <= s@.len(),
            without_dot_slash(s@.subrange(k as int, s@.len() as int)) == without_dot_slash(s@),
        decreases s.len() - k,
    {
        assert(s@.subrange(k as int, s@.len() as int).subrange(2, s@.len() - k) =~= s@.subrange(
            k + 2,
            s@.len() as int,
        ));
        k = k + 2;
    }
    k
}

fn starts_with_pfx(s: &[char], from: usize) -> (b: bool)
    requires
        from <= s@.len(),
    ensures
        b == starts_with(s@.subrange(from as int, s@.len() as int), "pfx"@),
{
    proof {
        reveal_strlit("pfx");
    }
    let ok = s.len() - from >= 3 && s[from] == 'p' && s[from + 1] == 'f' && s[from + 2] == 'x';
    proof {
        let t = s@.subrange(from as int, s@.len() as int);
        if ok {
            assert(t.take(3) =~= "pfx"@);
        } else if t.len() >= 3 {
            assert(t.take(3)[0] == t[0] && t.take(3)[1] == t[1] && t.take(3)[2] == t[2]);
        }
    }
    ok
}

/// Whether a backup archive's listing holds the prefix.
pub fn backup_has_pfx(listing: &str) -> (b: bool)
    ensures
        b == lists_prefix(listing@),
{
    let v = chars_of(listing);
    let ls = lines_chars(v.as_slice());
    let mut i: usize = 0;
    while i < ls.len()
        invariant
            i <= ls@.len(),
            views(ls@) == lines(listing@),
            forall|j: int|
                0 <= j < i ==> !#[trigger] starts_with(without_dot_slash(lines(listing@)[j]), "pfx"@),
        decreases ls.len() - i,
    {
        assert(views(ls@)[i as int] == ls@[i as int]@);
        let from = strip_dot_slash(ls[i].as_slice());
        if starts_with_pfx(ls[i].as_slice(), from) {
            return true;
        }
        i = i + 1;
    }
    false
}

/// A prefix can be backed up once Proton has created it.
pub fn check_backup_source(pfx_exists: bool) -> (r: Result<(), AppError>)
    ensures
        r is Ok <==> pfx_exists,
        r matches Err(AppError::Api(m)) ==> m@ == "No Proton prefix exists yet — launch the game once first"@,
        r is Err ==> r matches Err(AppError::Api(_)),
{
    if pfx_exists {
        Ok(())
    } else {
        Err(AppError::Api(to_owned_string("No Proton prefix exists yet — launch the game once first")))
    }
}

/// A restore goes ahead only from an archive that holds the prefix, so a
/// wrong file never costs the user the prefix they have.
pub fn check_backup_listing(listing: &str) -> (r: Result<(), AppError>)
    ensures
        r is Ok <==> lists_prefix(listing@),
        r matches Err(AppError::Api(m)) ==> m@ == "Archive does not look like a prefix backup (no pfx/ inside)"@,
        r is Err ==> r matches Err(AppError::Api(_)),
{
    if backup_has_pfx(listing) {
        Ok(())
    } else {
        Err(AppError::Api(to_owned_string("Archive does not look like a prefix backup (no pfx/ inside)")))
    }
}

/// The `tar` arguments that archive the prefix's contents into `dest`, so a
/// restore does not depend on the prefix directory's name.
pub fn backup_args(compat_data: &str, dest: &str) -> (r: Vec<String>)
    ensures
        r@.len() == 5,
        r@[0]@ == "-czf"@ && r@[1]@ == dest@ && r@[2]@ == "-C"@ && r@[3]@ == compat_data@ && r@[4]@ == "."@,
{
    let mut r: Vec<String> = Vec::new();
    r.push(to_owned_string("-czf"));
    r.push(to_owned_string(dest));
    r.push(to_owned_string("-C"));
    r.push(to_owned_string(compat_data));
    r.push(to_owned_string("."));
    r
}

/// The `tar` arguments that unpack a backup into `compat_data`.
pub fn restore_args(archive: &str, compat_data: &str) -> (r: Vec<String>)
    ensures
        r@.len() == 4,
        r@[0]@ == "-xzf"@ && r@[1]@ == archive@ && r@[2]@ == "-C"@ && r@[3]@ == compat_data@,
{
    let mut r: Vec<String> = Vec::new();
    r.push(to_owned_string("-xzf"));
    r.push(to_owned_string(archive));
    r.push(to_owned_string("-C"));
    r.push(to_owned_string(compat_data));
    r
}

} // verus!
