//! The disk space an install needs, per volume: the download cache and the
//! game directory may share one, and then their needs add up.

use vstd::prelude::*;

use crate::text::{chars_of, same_text};

verus! {

/// What one volume must hold.
#[derive(Debug, Clone)]
pub struct DiskRequirement {
    pub path: String,
    pub available: Option<u64>,
    pub required: u64,
}

/// The install plan shown before a download.
#[derive(Debug, Clone)]
pub struct InstallPlan {
    pub download_bytes: u64,
    pub unpacked_bytes: Option<u64>,
    pub disks: Vec<DiskRequirement>,
    pub blocked: bool,
}

/// One folder the install writes to: how much it needs, the volume it is on
/// (the folder's own path when that cannot be told) and the free space there.
#[derive(Debug, Clone)]
pub struct DiskPart {
    pub path: String,
    pub required: u64,
    pub volume: String,
    pub available: Option<u64>,
}

/// `a` sorts before `b`, character by character, as `String`'s order has it.
pub open spec fn text_lt(a: Seq<char>, b: Seq<char>) -> bool
    decreases a.len(),
{
    if a.len() == 0 {
        b.len() > 0
    } else if b.len() == 0 {
        false
    } else if a[0] != b[0] {
        a[0] < b[0]
    } else {
        text_lt(a.drop_first(), b.drop_first())
    }
}

proof fn lemma_text_lt_irrefl(a: Seq<char>)
    ensures
        !text_lt(a, a),
    decreases a.len(),
{
    if a.len() > 0 {
        lemma_text_lt_irrefl(a.drop_first());
    }
}

proof fn lemma_text_lt_trans(a: Seq<char>, b: Seq<char>, c: Seq<char>)
    requires
        text_lt(a, b),
        text_lt(b, c),
    ensures
        text_lt(a, c),
    decreases a.len(),
{
    if a.len() > 0 && b.len() > 0 && c.len() > 0 && a[0] == b[0] && b[0] == c[0] {
        lemma_text_lt_trans(a.drop_first(), b.drop_first(), c.drop_first());
    }
}

proof fn lemma_text_lt_total(a: Seq<char>, b: Seq<char>)
    ensures
        a == b || text_lt(a, b) || text_lt(b, a),
    decreases a.len(),
{
    if a.len() > 0 && b.len() > 0 && a[0] == b[0] {
        lemma_text_lt_total(a.drop_first(), b.drop_first());
        if a.drop_first() == b.drop_first() {
            assert forall|k: int| 0 <= k < a.len() implies a[k] == b[k] by {
                if k > 0 {
                    assert(a[k] == a.drop_first()[k - 1]);
                    assert(b[k] == b.drop_first()[k - 1]);
                }
            }
            assert(a =~= b);
        }
    } else if a.len() == 0 && b.len() == 0 {
        assert(a =~= b);
    }
}

fn less_text(a: &[char], b: &[char]) -> (r: bool)
    ensures
        r == text_lt(a@, b@),
{
    let mut i: usize = 0;
    assert(a@.skip(0) =~= a@ && b@.skip(0) =~= b@);
    loop
        invariant
            i <= a@.len(),
            i <= b@.len(),
            text_lt(a@, b@) == text_lt(a@.skip(i as int), b@.skip(i as int)),
        decreases a@.len() - i,
    {
        if i == a.len() {
            return i < b.len();
        }
        if i == b.len() {
            return false;
        }
        if a[i] != b[i] {
            return a[i] < b[i];
        }
        assert(a@.skip(i as int).drop_first() =~= a@.skip(i + 1));
        assert(b@.skip(i as int).drop_first() =~= b@.skip(i + 1));
        i = i + 1;
    }
}

/// The volumes the parts are on, in key order, each once.
pub open spec fn has_volume(parts: Seq<DiskPart>, key: Seq<char>) -> bool {
    exists|i: int| 0 <= i < parts.len() && parts[i].volume@ == key
}

/// The first part on volume `key`.
pub open spec fn first_on(parts: Seq<DiskPart>, key: Seq<char>) -> int
    decreases parts.len(),
{
    if parts.len() == 0 {
        -1
    } else if first_on(parts.drop_last(), key) >= 0 {
        first_on(parts.drop_last(), key)
    } else if parts.last().volume@ == key {
        parts.len() - 1
    } else {
        -1
    }
}

/// What volume `key` must hold: the parts on it added up, saturating.
pub open spec fn required_on(parts: Seq<DiskPart>, key: Seq<char>) -> u64
    decreases parts.len(),
{
    if parts.len() == 0 {
        0
    } else if parts.last().volume@ == key {
        let s = required_on(parts.drop_last(), key) + parts.last().required;
        if s > u64::MAX {
            u64::MAX
        } else {
            s as u64
        }
    } else {
        required_on(parts.drop_last(), key)
    }
}

/// The requirement rows: one per volume, sorted by volume, each with the
/// path and free space of the first part on it and what all its parts need.
pub open spec fn rows_ok(parts: Seq<DiskPart>, keys: Seq<Seq<char>>, rows: Seq<DiskRequirement>) -> bool {
    &&& rows.len() == keys.len()
    &&& forall|i: int, j: int| 0 <= i < j < keys.len() ==> text_lt(keys[i], keys[j])
    &&& forall|k: Seq<char>| has_volume(parts, k) <==> keys.contains(k)
    &&& forall|i: int| 0 <= i < keys.len() ==> row_ok(parts, keys[i], #[trigger] rows[i])
}

/// The row of volume `key`: the path and free space of its first part and
/// what all its parts need.
pub open spec fn row_ok(parts: Seq<DiskPart>, key: Seq<char>, row: DiskRequirement) -> bool {
    let f = first_on(parts, key);
    &&& 0 <= f < parts.len()
    &&& row.path@ == parts[f].path@
    &&& row.available == parts[f].available
    &&& row.required == required_on(parts, key)
}

proof fn lemma_first_on(parts: Seq<DiskPart>, key: Seq<char>)
    ensures
        first_on(parts, key) >= 0 <==> has_volume(parts, key),
        first_on(parts, key) >= 0 ==> first_on(parts, key) < parts.len() && parts[first_on(parts, key)].volume@
            == key,
    decreases parts.len(),
{
    if parts.len() > 0 {
        lemma_first_on(parts.drop_last(), key);
        if has_volume(parts, key) {
            let i = choose|i: int| 0 <= i < parts.len() && parts[i].volume@ == key;
            if i < parts.len() - 1 {
                assert(parts.drop_last()[i].volume@ == key);
            }
        }
        if has_volume(parts.drop_last(), key) {
            let i = choose|i: int| 0 <= i < parts.drop_last().len() && parts.drop_last()[i].volume@ == key;
            assert(parts[i].volume@ == key);
        }
    }
}

proof fn lemma_required_absent(parts: Seq<DiskPart>, key: Seq<char>)
    requires
        !has_volume(parts, key),
    ensures
        required_on(parts, key) == 0,
    decreases parts.len(),
{
    if parts.len() > 0 {
        assert(parts[parts.len() - 1].volume@ != key);
        if has_volume(parts.drop_last(), key) {
            let m = choose|m: int| 0 <= m < parts.drop_last().len() && parts.drop_last()[m].volume@ == key;
            assert(parts[m].volume@ == key);
        }
        lemma_required_absent(parts.drop_last(), key);
    }
}

/// Group the parts by volume: the space each volume needs.
pub fn requirements(parts: Vec<DiskPart>) -> (r: Vec<DiskRequirement>)
    ensures
        exists|keys: Seq<Seq<char>>| rows_ok(parts@, keys, r@),
{
    let mut rows: Vec<DiskRequirement> = Vec::new();
    let mut keys: Vec<Vec<char>> = Vec::new();
    let mut i: usize = 0;
    assert(rows_ok(parts@.take(0), crate::text::views(keys@), rows@)) by {
        assert forall|k: Seq<char>| has_volume(parts@.take(0), k) <==> crate::text::views(keys@).contains(k) by {}
    }
    while i < parts.len()
        invariant
            i <= parts@.len(),
            keys@.len() == rows@.len(),
            rows_ok(parts@.take(i as int), crate::text::views(keys@), rows@),
        decreases parts.len() - i,
    {
        let ghost pre = parts@.take(i as int);
        let ghost post = parts@.take(i + 1);
        let ghost kv = crate::text::views(keys@);
        let p = &parts[i];
        assert(post.drop_last() =~= pre);
        assert(post.last() == *p);
        let key = chars_of(p.volume.as_str());
        // The first row whose volume does not sort before this one.
        let mut at: usize = 0;
        while at < keys.len() && less_text(keys[at].as_slice(), key.as_slice())
            invariant
                at <= keys@.len(),
                kv == crate::text::views(keys@),
                forall|j: int| 0 <= j < at ==> text_lt(kv[j], key@),
            decreases keys.len() - at,
        {
            at = at + 1;
        }
        proof {
            lemma_first_on(pre, key@);
            lemma_first_on(post, key@);
        }
        let ghost rv = rows@;
        if at < keys.len() && crate::text::eq_chars(keys[at].as_slice(), key.as_slice()) {
            // This volume already has a row: add to what it needs.
            let new_req = rows[at].required.saturating_add(p.required);
            let row = DiskRequirement {
                path: crate::text::to_owned_string(rows[at].path.as_str()),
                available: rows[at].available,
                required: new_req,
            };
            rows.set(at, row);
            proof {
                assert(kv[at as int] == key@);
                assert forall|k: Seq<char>| has_volume(post, k) <==> kv.contains(k) by {
                    if has_volume(post, k) && !has_volume(pre, k) {
                        let m = choose|m: int| 0 <= m < post.len() && post[m].volume@ == k;
                        if m < pre.len() {
                            assert(pre[m] == post[m]);
                        }
                        assert(k == key@);
                    }
                    if has_volume(pre, k) {
                        let m = choose|m: int| 0 <= m < pre.len() && pre[m].volume@ == k;
                        assert(post[m] == pre[m]);
                    }
                }
                assert forall|j: int| 0 <= j < kv.len() implies row_ok(post, kv[j], #[trigger] rows@[j]) by {
                    lemma_first_on(pre, kv[j]);
                    assert(first_on(pre, kv[j]) >= 0);
                    assert(post[first_on(pre, kv[j])] == pre[first_on(pre, kv[j])]);
                    assert(first_on(post, kv[j]) == first_on(pre, kv[j]));
                    assert(row_ok(pre, kv[j], rv[j]));
                    if j != at {
                        lemma_text_lt_irrefl(kv[j]);
                        if j < at {
                            assert(text_lt(kv[j], kv[at as int]));
                        } else {
                            assert(text_lt(kv[at as int], kv[j]));
                        }
                        assert(kv[j] != key@);
                        assert(rows@[j] == rv[j]);
                        assert(required_on(post, kv[j]) == required_on(pre, kv[j]));
                    } else {
                        assert(required_on(post, kv[j]) == rows@[j].required);
                    }
                }
                assert(rows_ok(post, crate::text::views(keys@), rows@));
            }
        } else {
            proof {
                if at < kv.len() {
                    lemma_text_lt_total(kv[at as int], key@);
                }
                if has_volume(pre, key@) {
                    assert(kv.contains(key@));
                    let m = choose|m: int| 0 <= m < kv.len() && kv[m] == key@;
                    if m < at {
                        lemma_text_lt_irrefl(key@);
                    } else if m > at {
                        lemma_text_lt_trans(key@, kv[at as int], kv[m]);
                        lemma_text_lt_irrefl(key@);
                    }
                }
                lemma_required_absent(pre, key@);
                assert forall|m: int| at <= m < kv.len() implies text_lt(key@, #[trigger] kv[m]) by {
                    if m > at {
                        lemma_text_lt_trans(key@, kv[at as int], kv[m]);
                    }
                }
            }
            let row = DiskRequirement {
                path: crate::text::to_owned_string(p.path.as_str()),
                available: p.available,
                required: p.required,
            };
            let ghost rowv = row;
            rows.insert(at, row);
            assert(rows@ == rv.insert(at as int, rowv));
            let ghost kv0 = kv;
            keys.insert(at, key);
            proof {
                let nk = crate::text::views(keys@);
                assert(nk =~= kv0.insert(at as int, key@));
                assert forall|a: int, b: int| 0 <= a < b < nk.len() implies text_lt(nk[a], nk[b]) by {
                    if b == at {
                        assert(nk[a] == kv0[a]);
                    } else if a == at {
                        assert(nk[b] == kv0[b - 1]);
                        if b - 1 > at {
                            lemma_text_lt_trans(key@, kv0[at as int], kv0[b - 1]);
                        }
                    } else if a < at && b > at {
                        assert(nk[a] == kv0[a] && nk[b] == kv0[b - 1]);
                        lemma_text_lt_trans(kv0[a], key@, kv0[b - 1]);
                    } else if b < at {
                        assert(nk[a] == kv0[a] && nk[b] == kv0[b]);
                    } else {
                        assert(nk[a] == kv0[a - 1] && nk[b] == kv0[b - 1]);
                    }
                }
                assert forall|k: Seq<char>| has_volume(post, k) <==> nk.contains(k) by {
                    if has_volume(post, k) && !has_volume(pre, k) {
                        let m = choose|m: int| 0 <= m < post.len() && post[m].volume@ == k;
                        if m < pre.len() {
                            assert(pre[m] == post[m]);
                        }
                        assert(k == key@);
                        assert(nk[at as int] == key@);
                    }
                    if has_volume(pre, k) {
                        let m = choose|m: int| 0 <= m < pre.len() && pre[m].volume@ == k;
                        assert(post[m] == pre[m]);
                        assert(kv0.contains(k));
                        let q = choose|q: int| 0 <= q < kv0.len() && kv0[q] == k;
                        if q < at {
                            assert(nk[q] == k);
                        } else {
                            assert(nk[q + 1] == k);
                        }
                    }
                    if nk.contains(k) {
                        let q = choose|q: int| 0 <= q < nk.len() && nk[q] == k;
                        if q < at {
                            assert(kv0[q] == k);
                            assert(kv0.contains(k));
                        } else if q > at {
                            assert(kv0[q - 1] == k);
                            assert(kv0.contains(k));
                        } else {
                            assert(post[pre.len() as int].volume@ == k);
                        }
                    }
                }
                assert forall|j: int| 0 <= j < nk.len() implies row_ok(post, nk[j], #[trigger] rows@[j]) by {
                    lemma_text_lt_irrefl(key@);
                    if j == at {
                        assert(nk[j] == key@);
                        assert(rows@[j] == rowv);
                        assert(first_on(pre, key@) < 0);
                        assert(post[pre.len() as int] == *p);
                        assert(first_on(post, key@) == pre.len());
                        assert(required_on(post, key@) == p.required);
                        assert(rows@[j].path@ == post[first_on(post, nk[j])].path@);
                        assert(rows@[j].available == post[first_on(post, nk[j])].available);
                        assert(rows@[j].required == required_on(post, nk[j]));
                    } else {
                        let oj = if j < at { j } else { j - 1 };
                        assert(nk[j] == kv0[oj]);
                        assert(rows@[j] == rv[oj]);
                        lemma_first_on(pre, kv0[oj]);
                        assert(post[first_on(pre, kv0[oj])] == pre[first_on(pre, kv0[oj])]);
                        if oj < at {
                            assert(text_lt(kv0[oj], key@));
                        } else {
                            assert(text_lt(key@, kv0[oj]));
                        }
                        assert(kv0[oj] != key@);
                        assert(first_on(post, kv0[oj]) == first_on(pre, kv0[oj]));
                        assert(required_on(post, kv0[oj]) == required_on(pre, kv0[oj]));
                        assert(row_ok(pre, kv0[oj], rv[oj]));
                        assert(rows@[j].path@ == post[first_on(post, nk[j])].path@);
                        assert(rows@[j].available == post[first_on(post, nk[j])].available);
                        assert(rows@[j].required == required_on(post, nk[j]));
                    }
                }
                assert(rows_ok(post, nk, rows@));
            }
        }
        i = i + 1;
    }
    assert(parts@.take(i as int) =~= parts@);
    rows
}

/// A volume known to lack the space it needs.
pub open spec fn short_of_space(d: DiskRequirement) -> bool {
    d.available matches Some(free) && free < d.required
}

/// The install is blocked when some volume is known to lack the space.
pub open spec fn blocked_by(disks: Seq<DiskRequirement>) -> bool {
    exists|i: int| 0 <= i < disks.len() && short_of_space(#[trigger] disks[i])
}

pub fn is_blocked(disks: &[DiskRequirement]) -> (b: bool)
    ensures
        b == blocked_by(disks@),
{
    let mut i: usize = 0;
    while i < disks.len()
        invariant
            i <= disks@.len(),
            forall|j: int| 0 <= j < i ==> !short_of_space(#[trigger] disks@[j]),
        decreases disks.len() - i,
    {
        match disks[i].available {
            Some(free) => if free < disks[i].required {
                return true;
            },
            None => {},
        }
        i = i + 1;
    }
    false
}

} // verus!

verus! {

/// The unpacked size of the archive: the entries' sizes added up, or
/// nothing when one is unknown or the sum does not fit.
pub open spec fn unpacked_total_of(sizes: Seq<Option<u64>>) -> Option<nat>
    decreases sizes.len(),
{
    if sizes.len() == 0 {
        Some(0)
    } else {
        match (unpacked_total_of(sizes.drop_last()), sizes.last()) {
            (Some(a), Some(b)) => if a + b <= u64::MAX {
                Some((a + b) as nat)
            } else {
                None
            },
            _ => None,
        }
    }
}

pub fn unpacked_total(sizes: &[Option<u64>]) -> (r: Option<u64>)
    ensures
        match r {
            Some(t) => unpacked_total_of(sizes@) == Some(t as nat),
            None => unpacked_total_of(sizes@) is None,
        },
{
    let mut total: u64 = 0;
    let mut i: usize = 0;
    while i < sizes.len()
        invariant
            i <= sizes@.len(),
            unpacked_total_of(sizes@.take(i as int)) == Some(total as nat),
        decreases sizes.len() - i,
    {
        assert(sizes@.take(i + 1).drop_last() =~= sizes@.take(i as int));
        match sizes[i] {
            Some(b) => {
                match total.checked_add(b) {
                    Some(t) => {
                        total = t;
                    },
                    None => {
                        proof {
                            lemma_unpacked_none(sizes@, i + 1);
                        }
                        return None;
                    },
                }
            },
            None => {
                proof {
                    lemma_unpacked_none(sizes@, i + 1);
                }
                return None;
            },
        }
        i = i + 1;
    }
    assert(sizes@.take(i as int) =~= sizes@);
    Some(total)
}

proof fn lemma_unpacked_none(sizes: Seq<Option<u64>>, k: int)
    requires
        0 <= k <= sizes.len(),
        unpacked_total_of(sizes.take(k)) is None,
    ensures
        unpacked_total_of(sizes) is None,
    decreases sizes.len() - k,
{
    if k < sizes.len() {
        assert(sizes.take(k + 1).drop_last() =~= sizes.take(k));
        lemma_unpacked_none(sizes, k + 1);
    } else {
        assert(sizes.take(k) =~= sizes);
    }
}

/// The file a pack is cached under in the download directory: the last
/// segment of its URL, unless that is empty, `.` or `..`.
pub open spec fn cached_name_of(url: Seq<char>) -> Option<Seq<char>> {
    let segs = crate::text::split(url, '/');
    let n = segs.last();
    if n.len() == 0 || n == "."@ || n == ".."@ {
        None
    } else {
        Some(n)
    }
}

pub fn cached_pack_name(url: &str) -> (r: Option<String>)
    ensures
        match r {
            Some(n) => cached_name_of(url@) == Some(n@),
            None => cached_name_of(url@) is None,
        },
{
    let v = chars_of(url);
    let segs = crate::text::split_chars(v.as_slice(), '/');
    proof {
        crate::text::lemma_split_nonempty(url@, '/');
    }
    let n = &segs[segs.len() - 1];
    assert(crate::text::views(segs@).last() == n@);
    let dot = chars_of(".");
    let dd = chars_of("..");
    if n.len() == 0 || crate::text::eq_chars(n.as_slice(), dot.as_slice()) || crate::text::eq_chars(
        n.as_slice(),
        dd.as_slice(),
    ) {
        None
    } else {
        Some(crate::text::string_of(n.as_slice()))
    }
}

} // verus!

verus! {

/// `n` held at `u64::MAX`.
pub open spec fn capped(n: nat) -> u64 {
    if n > u64::MAX {
        u64::MAX
    } else {
        n as u64
    }
}

/// The advertised sizes of the packs that give one, added up.
pub open spec fn advertised_total(packs: Seq<crate::api_types::PackFile>) -> nat
    decreases packs.len(),
{
    if packs.len() == 0 {
        0
    } else {
        advertised_total(packs.drop_last()) + match crate::text::parse_u64_spec(packs.last().package_size@) {
            Some(n) => n as nat,
            None => 0nat,
        }
    }
}

/// The bytes a download transfers: the packs' advertised sizes added up
/// (those that do not parse count nothing), held at `u64::MAX`.
pub fn download_bytes(packs: &[crate::api_types::PackFile]) -> (r: u64)
    ensures
        r == capped(advertised_total(packs@)),
{
    let mut total: u64 = 0;
    let mut i: usize = 0;
    while i < packs.len()
        invariant
            i <= packs@.len(),
            total == capped(advertised_total(packs@.take(i as int))),
        decreases packs.len() - i,
    {
        assert(packs@.take(i + 1).drop_last() =~= packs@.take(i as int));
        let v = chars_of(packs[i].package_size.as_str());
        let n = match crate::text::parse_u64(v.as_slice()) {
            Some(n) => n,
            None => 0,
        };
        total = total.saturating_add(n);
        i = i + 1;
    }
    assert(packs@.take(i as int) =~= packs@);
    total
}

/// What of pack `p` already sits in the download cache, given the size of
/// the file found under its cache name (`None` when there is none): at most
/// the pack's own size, and nothing for a pack without a cache name or a
/// size.
pub open spec fn cached_part(p: crate::api_types::PackFile, local: Option<u64>) -> nat {
    match (cached_name_of(p.url@), crate::text::parse_u64_spec(p.package_size@), local) {
        (Some(_), Some(size), Some(len)) => if len < size {
            len as nat
        } else {
            size as nat
        },
        _ => 0,
    }
}

pub open spec fn cached_total(packs: Seq<crate::api_types::PackFile>, local: Seq<Option<u64>>) -> nat
    decreases packs.len(),
{
    if packs.len() == 0 || local.len() < packs.len() {
        0
    } else {
        cached_total(packs.drop_last(), local.take(packs.len() - 1)) + cached_part(
            packs.last(),
            local[packs.len() - 1],
        )
    }
}

/// The bytes of the download already cached; `local[i]` is the size of the
/// file under pack `i`'s cache name.
pub fn cached_bytes(packs: &[crate::api_types::PackFile], local: &[Option<u64>]) -> (r: u64)
    requires
        local@.len() == packs@.len(),
    ensures
        r == capped(cached_total(packs@, local@)),
{
    let mut total: u64 = 0;
    let mut i: usize = 0;
    while i < packs.len()
        invariant
            i <= packs@.len(),
            local@.len() == packs@.len(),
            total == capped(cached_total(packs@.take(i as int), local@.take(i as int))),
        decreases packs.len() - i,
    {
        assert(packs@.take(i + 1).drop_last() =~= packs@.take(i as int));
        assert(local@.take(i + 1).take(i as int) =~= local@.take(i as int));
        assert(packs@.take(i + 1).last() == packs@[i as int]);
        let named = cached_pack_name(packs[i].url.as_str()).is_some();
        let v = chars_of(packs[i].package_size.as_str());
        let part: u64 = match (named, crate::text::parse_u64(v.as_slice()), local[i]) {
            (true, Some(size), Some(len)) => if len < size {
                len
            } else {
                size
            },
            _ => 0,
        };
        assert(part == cached_part(packs@[i as int], local@[i as int]));
        total = total.saturating_add(part);
        i = i + 1;
    }
    assert(packs@.take(i as int) =~= packs@);
    assert(local@.take(i as int) =~= local@);
    total
}

/// The folders an install writes to: the download directory needs what is
/// not cached yet, the game directory the unpacked size (0 when unknown).
pub open spec fn plan_parts(
    download_total: u64,
    cached: u64,
    unpacked_bytes: Option<u64>,
    download: DiskPart,
    game: DiskPart,
) -> Seq<DiskPart> {
    seq![
        DiskPart { required: (if cached >= download_total { 0 } else { (download_total - cached) as u64 }), ..download },
        DiskPart {
            required: match unpacked_bytes {
                Some(u) => u,
                None => 0,
            },
            ..game
        },
    ]
}

/// The plan shown before a download: what it transfers, what the game
/// takes unpacked, and what each volume must hold. The download directory
/// needs what is not cached yet, the game directory the unpacked size (0
/// when unknown); `download` and `game` name each directory's volume and
/// free space.
pub fn plan_install(
    download_total: u64,
    cached: u64,
    unpacked_bytes: Option<u64>,
    download: DiskPart,
    game: DiskPart,
) -> (r: InstallPlan)
    ensures
        r.download_bytes == download_total,
        r.unpacked_bytes == unpacked_bytes,
        exists|keys: Seq<Seq<char>>|
            #[trigger] rows_ok(plan_parts(download_total, cached, unpacked_bytes, download, game), keys, r.disks@),
        r.blocked == blocked_by(r.disks@),
{
    let d = DiskPart { required: download_total.saturating_sub(cached), ..download };
    let g = DiskPart {
        required: match unpacked_bytes {
            Some(u) => u,
            None => 0,
        },
        ..game
    };
    let mut parts: Vec<DiskPart> = Vec::new();
    parts.push(d);
    parts.push(g);
    let ghost ps = plan_parts(download_total, cached, unpacked_bytes, download, game);
    assert(parts@ =~= ps);
    let disks = requirements(parts);
    let ghost keys = choose|keys: Seq<Seq<char>>| rows_ok(ps, keys, disks@);
    assert(rows_ok(plan_parts(download_total, cached, unpacked_bytes, download, game), keys, disks@));
    let blocked = is_blocked(disks.as_slice());
    let r = InstallPlan { download_bytes: download_total, unpacked_bytes, disks, blocked };
    assert(rows_ok(plan_parts(download_total, cached, unpacked_bytes, download, game), keys, r.disks@));
    r
}

} // verus!
