//! File-level game sync through the official resource manifest: version
//! strings and paths from the API, the decryption of the per-file index,
//! which index entries are trusted, and which local files need fetching.

use vstd::prelude::*;
use vstd::string::StringSliceAdditionalSpecFns;

use crate::error::AppError;
use crate::text::{
    chars_of, join, join_chars, push_all, push_str, split, split_chars, string_of, strip_trailing,
    strip_trailing_chars, views,
};

verus! {

/// Key of the byte-wise subtract cipher on the resource index files, as
/// text; the cipher uses its bytes.
pub const RESOURCE_INDEX_KEY: &'static str = "Assets/Beyond/DynamicAssets/Gameplay/UI/Fonts/";

/// The resource index `name`s are relative to this subdirectory of the game.
pub const STREAMING_ASSETS_SUBDIR: &'static str = "Endfield_Data/StreamingAssets";

/// Progress of a verify-and-repair run.
#[derive(Debug, Clone)]
pub struct IntegrityProgress {
    /// `fetching`, `verifying` or `downloading`.
    pub stage: String,
    pub files_done: usize,
    pub total_files: usize,
    pub bytes_done: u64,
    pub bytes_total: u64,
    pub speed_bps: u64,
}

/// What a verify-and-repair run did.
#[derive(Debug, Clone)]
pub struct IntegrityComplete {
    pub checked: usize,
    pub repaired: usize,
    pub bytes_downloaded: u64,
}

/// The first two dot-separated components of a version.
pub open spec fn major_minor_of(version: Seq<char>) -> Seq<char> {
    let p = split(version, '.');
    join(if p.len() > 2 { p.take(2) } else { p }, "."@)
}

/// `1.3.3` → `1.3`: the `game_version` the resources API wants.
pub fn major_minor(version: &str) -> (r: String)
    ensures
        r@ == major_minor_of(version@),
{
    let v = chars_of(version);
    let mut parts = split_chars(v.as_slice(), '.');
    let ghost p = views(parts@);
    if parts.len() > 2 {
        parts.truncate(2);
        assert(views(parts@) =~= p.take(2));
    }
    let dot = chars_of(".");
    let j = join_chars(parts.as_slice(), dot.as_slice());
    string_of(j.as_slice())
}

/// Index of the last `c` in `s`, or -1.
pub open spec fn rfind(s: Seq<char>, c: char) -> int
    decreases s.len(),
{
    if s.len() == 0 {
        -1
    } else if s.last() == c {
        s.len() - 1
    } else {
        rfind(s.drop_last(), c)
    }
}

fn rfind_opt(s: &[char], c: char) -> (r: Option<usize>)
    ensures
        match r {
            Some(k) => k == rfind(s@, c) && k < s@.len(),
            None => rfind(s@, c) < 0,
        },
{
    let mut b: usize = s.len();
    assert(s@.take(b as int) =~= s@);
    while b > 0
        invariant
            b <= s@.len(),
            rfind(s@, c) == rfind(s@.take(b as int), c),
        decreases b,
    {
        if s[b - 1] == c {
            return Some(b - 1);
        }
        assert(s@.take(b as int).drop_last() =~= s@.take(b - 1));
        b = b - 1;
    }
    None
}

/// The `rand_str` in a package path: what follows the last `_` of the
/// second-to-last path segment, trailing slashes ignored.
pub open spec fn rand_str_of(file_path: Seq<char>) -> Option<Seq<char>> {
    let segs = split(strip_trailing(file_path, '/'), '/');
    if segs.len() < 2 {
        None
    } else {
        let d = segs[segs.len() - 2];
        let k = rfind(d, '_');
        if k < 0 {
            None
        } else {
            Some(d.skip(k + 1))
        }
    }
}

/// `.../1.3.3_BGlQHu2HgMlqTuqG/files` → `BGlQHu2HgMlqTuqG`.
pub fn extract_rand_str(file_path: &str) -> (r: Option<String>)
    ensures
        match r {
            Some(s) => rand_str_of(file_path@) == Some(s@),
            None => rand_str_of(file_path@) is None,
        },
{
    let v = chars_of(file_path);
    let t = strip_trailing_chars(v.as_slice(), '/');
    let segs = split_chars(t.as_slice(), '/');
    if segs.len() < 2 {
        return None;
    }
    let d = &segs[segs.len() - 2];
    assert(views(segs@)[segs@.len() - 2] == d@);
    match rfind_opt(d.as_slice(), '_') {
        None => None,
        Some(k) => {
            let r = crate::text::slice_of(d.as_slice(), k + 1, d.len());
            assert(r@ =~= d@.skip(k + 1));
            Some(string_of(r.as_slice()))
        },
    }
}

/// A name with every `\` read as the separator `/`, as Windows reads it.
pub open spec fn with_slashes(name: Seq<char>) -> Seq<char> {
    name.map_values(|c: char| if c == '\\' { '/' } else { c })
}

/// A manifest name that cannot leave the assets root once joined onto it,
/// on any platform: not rooted, no drive prefix, no `..` component, with
/// `\` counted as a separator as well as `/`.
pub open spec fn safe_relative(name: Seq<char>) -> bool {
    let n = with_slashes(name);
    &&& !(n.len() > 0 && n[0] == '/')
    &&& !(n.len() > 1 && n[1] == ':')
    &&& !split(n, '/').contains(".."@)
}

pub fn is_safe_relative_path(name: &str) -> (b: bool)
    ensures
        b == safe_relative(name@),
{
    let raw = chars_of(name);
    let mut v: Vec<char> = Vec::new();
    let mut k: usize = 0;
    while k < raw.len()
        invariant
            k <= raw@.len(),
            raw@ == name@,
            v@ == with_slashes(name@.take(k as int)),
        decreases raw.len() - k,
    {
        let c = raw[k];
        v.push(if c == '\\' { '/' } else { c });
        assert(name@.take(k + 1) =~= name@.take(k as int).push(c));
        assert(v@ =~= with_slashes(name@.take(k + 1)));
        k = k + 1;
    }
    assert(name@.take(raw@.len() as int) =~= name@);
    if v.len() > 0 && v[0] == '/' {
        return false;
    }
    if v.len() > 1 && v[1] == ':' {
        return false;
    }
    let parts = split_chars(v.as_slice(), '/');
    let dd = chars_of("..");
    let mut i: usize = 0;
    while i < parts.len()
        invariant
            i <= parts@.len(),
            dd@ == ".."@,
            views(parts@) == split(with_slashes(name@), '/'),
            forall|j: int| 0 <= j < i ==> views(parts@)[j] != ".."@,
        decreases parts.len() - i,
    {
        if crate::text::eq_chars(parts[i].as_slice(), dd.as_slice()) {
            assert(views(parts@)[i as int] == ".."@);
            assert(split(with_slashes(name@), '/').contains(".."@));
            return false;
        }
        i = i + 1;
    }
    true
}

// ---------------------------------------------------------------------------
// The encrypted index
// ---------------------------------------------------------------------------

/// What `base64::engine::general_purpose::STANDARD.decode` makes of its
/// input: the decoded bytes, or nothing when the input is not valid
/// standard, padded base64.
pub uninterp spec fn base64_decoded(input: Seq<u8>) -> Option<Seq<u8>>;

/// `base64::engine::general_purpose::STANDARD.decode` from the `base64`
/// crate. The contract claims that the bytes it returns are the name
/// `base64_decoded` of the input, and that it fails exactly when that name
/// is nothing; the failure's message is not described.
#[verifier::external_body]
fn base64_decode(input: &[u8]) -> (r: Result<Vec<u8>, String>)
    ensures
        match r {
            Ok(v) => base64_decoded(input@) == Some(v@),
            Err(_) => base64_decoded(input@) is None,
        },
{
    match base64::Engine::decode(&base64::engine::general_purpose::STANDARD, input) {
        Ok(v) => Ok(v),
        Err(e) => Err(e.to_string()),
    }
}

/// ASCII whitespace as `u8::is_ascii_whitespace` has it.
pub open spec fn ascii_ws(b: u8) -> bool {
    b == 32 || b == 9 || b == 10 || b == 12 || b == 13
}

pub open spec fn without_ws(body: Seq<u8>) -> Seq<u8> {
    body.filter(|b: u8| !ascii_ws(b))
}

/// The subtract cipher undone: `plain[i] = enc[i] - key[i % key.len()]`,
/// modulo 256.
pub open spec fn unmasked(raw: Seq<u8>) -> Seq<u8> {
    Seq::new(
        raw.len(),
        |i: int| raw[i].wrapping_sub(RESOURCE_INDEX_KEY.spec_bytes()[i % (RESOURCE_INDEX_KEY.spec_bytes().len() as int)]),
    )
}

/// The cipher as the official launcher applies it:
/// `enc[i] = plain[i] + key[i % key.len()]`, modulo 256.
pub open spec fn masked(plain: Seq<u8>) -> Seq<u8> {
    Seq::new(
        plain.len(),
        |i: int| plain[i].wrapping_add(RESOURCE_INDEX_KEY.spec_bytes()[i % (RESOURCE_INDEX_KEY.spec_bytes().len() as int)]),
    )
}

/// Undoing the cipher gives back exactly what the launcher's side masked,
/// for every index text.
pub proof fn lemma_unmask_inverts_mask(plain: Seq<u8>)
    ensures
        unmasked(masked(plain)) == plain,
{
    let key = RESOURCE_INDEX_KEY.spec_bytes();
    assert forall|i: int| 0 <= i < plain.len() implies #[trigger] unmasked(masked(plain))[i] == plain[i] by {
        let k = key[i % (key.len() as int)];
        let e = masked(plain)[i];
        assert(e == plain[i].wrapping_add(k));
        assert(unmasked(masked(plain))[i] == e.wrapping_sub(k));
    }
    assert(unmasked(masked(plain)) =~= plain);
}

/// The index file decrypted: whitespace dropped, base64 decoded, then the
/// subtract cipher undone. Text that is not base64 is an API error.
pub fn decrypt_index(body: &[u8]) -> (r: Result<Vec<u8>, AppError>)
    ensures
        match base64_decoded(without_ws(body@)) {
            Some(raw) => r matches Ok(p) && p@ == unmasked(raw),
            None => r matches Err(AppError::Api(m)) && exists|detail: Seq<char>|
                m@ == "resource index base64 decode failed: "@ + detail,
        },
{
    let mut filtered: Vec<u8> = Vec::new();
    let mut i: usize = 0;
    while i < body.len()
        invariant
            i <= body@.len(),
            filtered@ == without_ws(body@.take(i as int)),
        decreases body.len() - i,
    {
        let b = body[i];
        proof {
            assert(body@.take(i + 1) =~= body@.take(i as int).push(b));
            body@.take(i as int).lemma_filter_push(b, |b: u8| !ascii_ws(b));
        }
        if !(b == 32 || b == 9 || b == 10 || b == 12 || b == 13) {
            filtered.push(b);
        }
        i = i + 1;
    }
    assert(body@.take(i as int) =~= body@);
    let raw = match base64_decode(filtered.as_slice()) {
        Ok(raw) => raw,
        Err(e) => {
            let mut m: Vec<char> = Vec::new();
            push_str(&mut m, "resource index base64 decode failed: ");
            push_str(&mut m, e.as_str());
            return Err(AppError::Api(string_of(m.as_slice())));
        },
    };
    let key = RESOURCE_INDEX_KEY.as_bytes();
    let klen = key.len();
    proof {
        reveal_strlit("Assets/Beyond/DynamicAssets/Gameplay/UI/Fonts/");
        vstd::string::is_ascii_spec_bytes(RESOURCE_INDEX_KEY);
    }
    assert(klen > 0);
    let mut out: Vec<u8> = Vec::new();
    let mut j: usize = 0;
    while j < raw.len()
        invariant
            j <= raw@.len(),
            key@ == RESOURCE_INDEX_KEY.spec_bytes(),
            klen == key@.len(),
            klen > 0,
            out@ == unmasked(raw@).take(j as int),
        decreases raw.len() - j,
    {
        let b = raw[j].wrapping_sub(key[j % klen]);
        out.push(b);
        assert(out@ =~= unmasked(raw@).take(j + 1));
        j = j + 1;
    }
    assert(out@ =~= unmasked(raw@));
    Ok(out)
}

} // verus!

verus! {

/// One file of a decrypted resource index.
#[derive(Debug, Clone)]
pub struct IndexFile {
    pub name: String,
    pub md5: Option<String>,
    pub size: u64,
}

/// One resolved manifest entry: where to fetch it and what it should hash to.
#[derive(Debug, Clone)]
pub struct ManifestFile {
    /// Path relative to the streaming-assets root, e.g. `VFS/AB/CD.chk`.
    pub name: String,
    pub md5: String,
    pub size: u64,
    pub url: String,
}

/// The index file a resource root publishes, by the root's name: the
/// `initial` one before the `main` one; other roots carry no index we use.
pub open spec fn index_name_of(resource: Seq<char>) -> Option<Seq<char>> {
    if crate::text::has_sub(resource, "initial"@) {
        Some("index_initial.json"@)
    } else if crate::text::has_sub(resource, "main"@) {
        Some("index_main.json"@)
    } else {
        None
    }
}

/// A resource root's index file carries the root's own name: a root whose
/// name holds `initial` reads `index_initial.json`, one that holds `main`
/// but not `initial` reads `index_main.json`, and any other root has none.
pub proof fn lemma_index_names_its_root(resource: Seq<char>)
    ensures
        index_name_of(resource) matches Some(n) ==> exists|k: Seq<char>|
            crate::text::has_sub(resource, k) && n == "index_"@ + k + ".json"@,
        crate::text::has_sub(resource, "initial"@) ==> index_name_of(resource) == Some("index_"@ + "initial"@ + ".json"@),
        !crate::text::has_sub(resource, "initial"@) && crate::text::has_sub(resource, "main"@) ==> index_name_of(resource)
            == Some("index_"@ + "main"@ + ".json"@),
        !crate::text::has_sub(resource, "initial"@) && !crate::text::has_sub(resource, "main"@) ==> index_name_of(
            resource,
        ) is None,
{
    reveal_strlit("index_");
    reveal_strlit(".json");
    reveal_strlit("initial");
    reveal_strlit("main");
    reveal_strlit("index_initial.json");
    reveal_strlit("index_main.json");
    assert("index_initial.json"@ =~= "index_"@ + "initial"@ + ".json"@);
    assert("index_main.json"@ =~= "index_"@ + "main"@ + ".json"@);
}

pub fn index_name_for(resource: &str) -> (r: Option<&'static str>)
    ensures
        match r {
            Some(n) => index_name_of(resource@) == Some(n@),
            None => index_name_of(resource@) is None,
        },
{
    let v = chars_of(resource);
    let initial = chars_of("initial");
    let main = chars_of("main");
    if crate::text::contains_sub(v.as_slice(), initial.as_slice()) {
        Some("index_initial.json")
    } else if crate::text::contains_sub(v.as_slice(), main.as_slice()) {
        Some("index_main.json")
    } else {
        None
    }
}

/// `name` under the resource path, trailing slashes of the path dropped.
pub open spec fn under(path: Seq<char>, name: Seq<char>) -> Seq<char> {
    strip_trailing(path, '/') + "/"@ + name
}

pub fn url_under(path: &str, name: &str) -> (r: String)
    ensures
        r@ == under(path@, name@),
{
    let v = chars_of(path);
    let mut out = strip_trailing_chars(v.as_slice(), '/');
    push_str(&mut out, "/");
    push_str(&mut out, name);
    string_of(out.as_slice())
}

/// An index entry the manifest takes: one with a hash to check it against
/// and a name that stays inside the assets root.
pub open spec fn kept(f: IndexFile) -> bool {
    f.md5 matches Some(m) && m@.len() > 0 && safe_relative(f.name@)
}

/// The manifest entries of one resource root's index, in index order.
pub open spec fn entries_of(path: Seq<char>, files: Seq<IndexFile>) -> Seq<(Seq<char>, Seq<char>, u64, Seq<char>)>
    decreases files.len(),
{
    if files.len() == 0 {
        seq![]
    } else {
        let f = files.last();
        entries_of(path, files.drop_last()) + if kept(f) {
            seq![(f.name@, f.md5->Some_0@, f.size, under(path, f.name@))]
        } else {
            seq![]
        }
    }
}

pub open spec fn manifest_views(v: Seq<ManifestFile>) -> Seq<(Seq<char>, Seq<char>, u64, Seq<char>)> {
    v.map_values(|m: ManifestFile| (m.name@, m.md5@, m.size, m.url@))
}

/// Add the usable entries of one resource root's index to the manifest.
pub fn add_manifest_entries(out: &mut Vec<ManifestFile>, path: &str, files: Vec<IndexFile>)
    ensures
        manifest_views(final(out)@) == manifest_views(old(out)@) + entries_of(path@, files@),
{
    let ghost o0 = manifest_views(out@);
    let ghost fs = files@;
    let mut i: usize = 0;
    assert(fs.take(0) =~= Seq::<IndexFile>::empty());
    assert(manifest_views(out@) =~= o0 + entries_of(path@, fs.take(0)));
    while i < files.len()
        invariant
            i <= fs.len(),
            fs == files@,
            manifest_views(out@) == o0 + entries_of(path@, fs.take(i as int)),
        decreases files.len() - i,
    {
        assert(fs.take(i + 1).drop_last() =~= fs.take(i as int));
        let f = &files[i];
        let ghost before = manifest_views(out@);
        match &f.md5 {
            Some(m) => {
                if m.as_str().unicode_len() > 0 && is_safe_relative_path(f.name.as_str()) {
                    let url = url_under(path, f.name.as_str());
                    let name = crate::text::to_owned_string(f.name.as_str());
                    let md5 = crate::text::to_owned_string(m.as_str());
                    let ghost o = out@;
                    out.push(ManifestFile { name, md5, size: f.size, url });
                    assert(manifest_views(out@) =~= manifest_views(o).push((f.name@, m@, f.size, under(path@, f.name@))));
                }
            },
            None => {},
        }
        assert(manifest_views(out@) =~= o0 + entries_of(path@, fs.take(i + 1)));
        i = i + 1;
    }
    assert(fs.take(i as int) =~= fs);
}

/// A local asset needs fetching unless it has the manifest's size and hash.
/// `local_size` is `None` for a missing file, `local_md5` `None` when it
/// could not be hashed.
pub open spec fn needs_fetch(local_size: Option<u64>, local_md5: Option<Seq<char>>, size: u64, md5: Seq<char>) -> bool {
    match local_size {
        Some(n) => if n == size {
            match local_md5 {
                Some(h) => h != md5,
                None => true,
            }
        } else {
            true
        },
        None => true,
    }
}

pub fn needs_download(local_size: Option<u64>, local_md5: Option<&str>, size: u64, md5: &str) -> (b: bool)
    ensures
        b == needs_fetch(
            local_size,
            match local_md5 {
                Some(h) => Some(h@),
                None => None,
            },
            size,
            md5@,
        ),
{
    match local_size {
        Some(n) => if n == size {
            match local_md5 {
                Some(h) => !crate::text::same_text(h, md5),
                None => true,
            }
        } else {
            true
        },
        None => true,
    }
}

/// A transfer of `needed` bytes into `path` fits when the free space is
/// unknown or at least `needed`; otherwise a disk-space error in MiB.
pub fn check_free_space(path: &str, needed: u64, available: Option<u64>) -> (r: Result<(), AppError>)
    ensures
        match available {
            Some(free) if free < needed => r == Err::<(), AppError>(
                AppError::DiskSpace {
                    path: r->Err_0->path,
                    needed_mib: (needed / 1048576) as u64,
                    available_mib: (free / 1048576) as u64,
                },
            ) && (r->Err_0->path)@ == path@,
            _ => r is Ok,
        },
{
    match available {
        Some(free) => if free < needed {
            Err(
                AppError::DiskSpace {
                    path: crate::text::to_owned_string(path),
                    needed_mib: needed / 1048576,
                    available_mib: free / 1048576,
                },
            )
        } else {
            Ok(())
        },
        None => Ok(()),
    }
}

} // verus!

verus! {

/// Files checked or fetched at once: the setting held between 1 and 8.
pub fn concurrency(max_concurrent: u32) -> (r: usize)
    ensures
        r == (if max_concurrent < 1 { 1 } else if max_concurrent > 8 { 8 } else { max_concurrent as int }),
{
    if max_concurrent < 1 {
        1
    } else if max_concurrent > 8 {
        8
    } else {
        max_concurrent as usize
    }
}

/// Verification progress is reported every 32 files and at the last one.
pub fn verify_report_due(done: usize, total: usize) -> (b: bool)
    ensures
        b == (done % 32 == 0 || done == total),
{
    done % 32 == 0 || done == total
}

/// The indices `i` of the entries with `stale[i]` set, in order.
pub open spec fn stale_indices(stale: Seq<bool>) -> Seq<usize>
    decreases stale.len(),
{
    if stale.len() == 0 {
        Seq::empty()
    } else if stale.last() {
        stale_indices(stale.drop_last()).push((stale.len() - 1) as usize)
    } else {
        stale_indices(stale.drop_last())
    }
}

/// The sizes of the stale entries added up.
pub open spec fn stale_bytes(manifest: Seq<ManifestFile>, stale: Seq<bool>) -> nat
    decreases stale.len(),
{
    if stale.len() == 0 || manifest.len() < stale.len() {
        0
    } else {
        stale_bytes(manifest.take(stale.len() - 1), stale.drop_last()) + if stale.last() {
            manifest[stale.len() - 1].size as nat
        } else {
            0nat
        }
    }
}

/// What a repair fetches: the manifest entries found stale (`stale[i]`
/// for entry `i`), in manifest order, and their total size, held at
/// `u64::MAX`.
pub fn repair_list(manifest: &[ManifestFile], stale: &[bool]) -> (r: (Vec<usize>, u64))
    requires
        stale@.len() == manifest@.len(),
    ensures
        r.0@ == stale_indices(stale@),
        r.1 == crate::install_plan::capped(stale_bytes(manifest@, stale@)),
{
    let mut idx: Vec<usize> = Vec::new();
    let mut total: u64 = 0;
    let mut i: usize = 0;
    while i < stale.len()
        invariant
            i <= stale@.len(),
            stale@.len() == manifest@.len(),
            idx@ == stale_indices(stale@.take(i as int)),
            total == crate::install_plan::capped(stale_bytes(manifest@.take(i as int), stale@.take(i as int))),
        decreases stale.len() - i,
    {
        assert(stale@.take(i + 1).drop_last() =~= stale@.take(i as int));
        assert(manifest@.take(i + 1).take(i as int) =~= manifest@.take(i as int));
        if stale[i] {
            idx.push(i);
            total = total.saturating_add(manifest[i].size);
        }
        i = i + 1;
    }
    assert(stale@.take(i as int) =~= stale@);
    assert(manifest@.take(i as int) =~= manifest@);
    (idx, total)
}

/// The name a file is downloaded under before its digest is checked.
pub fn temp_name(file_name: &str) -> (r: String)
    ensures
        r@ == file_name@ + ".llauncher_tmp"@,
{
    let mut v = chars_of(file_name);
    push_str(&mut v, ".llauncher_tmp");
    string_of(v.as_slice())
}

/// A downloaded file is kept only when the MD5 of the bytes fed into
/// `stream` (the whole download) is the one expected.
pub fn check_stream_digest(expected: &str, stream: crate::digest::Md5Stream) -> (r: Result<(), AppError>)
    ensures
        r is Ok <==> expected@ == crate::digest::hex_text(crate::digest::md5_digest(crate::digest::md5_fed(stream))),
        r matches Err(e) ==> (e matches AppError::Md5Mismatch { expected: x, actual: y } && x@ == expected@
            && y@ == crate::digest::hex_text(crate::digest::md5_digest(crate::digest::md5_fed(stream)))),
{
    let actual = stream.hex_digest();
    check_digest(expected, actual.as_str())
}

/// A downloaded file is kept only when its MD5 is the one expected.
pub fn check_digest(expected: &str, actual: &str) -> (r: Result<(), AppError>)
    ensures
        r is Ok <==> expected@ == actual@,
        r matches Err(e) ==> (e matches AppError::Md5Mismatch { expected: x, actual: y } && x@ == expected@
            && y@ == actual@),
{
    if crate::text::same_text(expected, actual) {
        Ok(())
    } else {
        Err(
            AppError::Md5Mismatch {
                expected: crate::text::to_owned_string(expected),
                actual: crate::text::to_owned_string(actual),
            },
        )
    }
}

/// The resource root's random segment, which a repair cannot go without.
pub fn require_rand_str(file_path: &str) -> (r: Result<String, AppError>)
    ensures
        match r {
            Ok(s) => rand_str_of(file_path@) == Some(s@),
            Err(e) => rand_str_of(file_path@) is None && e == AppError::Api(e->Api_0)
                && e->Api_0@ == "Could not derive rand_str from file_path"@,
        },
{
    match extract_rand_str(file_path) {
        Some(s) => Ok(s),
        None => Err(AppError::Api(crate::text::to_owned_string("Could not derive rand_str from file_path"))),
    }
}

/// A repair against an empty manifest would report a healthy install; it
/// is refused instead.
pub fn check_manifest(total_files: usize) -> (r: Result<(), AppError>)
    ensures
        r is Ok <==> total_files > 0,
        r matches Err(e) ==> e == AppError::Api(e->Api_0) && e->Api_0@ == "Resource manifest was empty"@,
{
    if total_files == 0 {
        Err(AppError::Api(crate::text::to_owned_string("Resource manifest was empty")))
    } else {
        Ok(())
    }
}

} // verus!
