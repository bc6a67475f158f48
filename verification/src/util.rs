//! Keeping an AppImage's bundled libraries out of the system programs the
//! launcher starts: which entries of `LD_LIBRARY_PATH` / `LD_PRELOAD` point
//! into the AppImage mount, and what the variable becomes without them.

use vstd::prelude::*;

use crate::text::{chars_of, has_sub, join, join_chars, push_str, starts_with, string_of, views};

verus! {

/// What happens to a library-path variable.
#[derive(Debug, PartialEq, Eq)]
pub enum Sanitized {
    /// No AppImage paths present: leave the variable as it is.
    Unchanged,
    /// Every entry pointed inside the AppImage: drop the variable.
    Remove,
    /// Some entries survived: set the variable to them, `:`-separated.
    SetTo(String),
}

/// An entry pointing into the AppImage: the mount itself or below it, or
/// any path through an AppImage runtime mount (`/.mount_`).
pub open spec fn appimage_path(path: Seq<char>, appdir: Option<Seq<char>>) -> bool {
    (match appdir {
        Some(dir) => path == dir || starts_with(path, dir + "/"@),
        None => false,
    }) || has_sub(path, "/.mount_"@)
}

pub fn is_appimage_path(path: &str, appdir: Option<&str>) -> (b: bool)
    ensures
        b == appimage_path(
            path@,
            match appdir {
                Some(d) => Some(d@),
                None => None,
            },
        ),
{
    let p = chars_of(path);
    let inside = match appdir {
        Some(dir) => {
            let d = chars_of(dir);
            let mut ds = chars_of(dir);
            push_str(&mut ds, "/");
            crate::text::eq_chars(p.as_slice(), d.as_slice()) || crate::text::has_prefix(
                p.as_slice(),
                ds.as_slice(),
            )
        },
        None => false,
    };
    let m = chars_of("/.mount_");
    inside || crate::text::contains_sub(p.as_slice(), m.as_slice())
}

/// Index of the first character of `s` that is one of `seps`, or -1.
pub open spec fn find_any(s: Seq<char>, seps: Seq<char>) -> int
    decreases s.len(),
{
    if s.len() == 0 {
        -1
    } else if seps.contains(s[0]) {
        0
    } else if find_any(s.drop_first(), seps) < 0 {
        -1
    } else {
        find_any(s.drop_first(), seps) + 1
    }
}

pub proof fn lemma_find_any(s: Seq<char>, seps: Seq<char>)
    ensures
        -1 <= find_any(s, seps) < s.len(),
        find_any(s, seps) >= 0 ==> seps.contains(s[find_any(s, seps)]),
        find_any(s, seps) >= 0 ==> forall|j: int| 0 <= j < find_any(s, seps) ==> !seps.contains(s[j]),
        find_any(s, seps) < 0 ==> forall|j: int| 0 <= j < s.len() ==> !seps.contains(s[j]),
    decreases s.len(),
{
    if s.len() > 0 && !seps.contains(s[0]) {
        lemma_find_any(s.drop_first(), seps);
        assert forall|j: int| 1 <= j < s.len() implies s[j] == s.drop_first()[j - 1] by {}
    }
}

proof fn lemma_find_any_concat(a: Seq<char>, t: Seq<char>, seps: Seq<char>)
    requires
        forall|j: int| 0 <= j < a.len() ==> !seps.contains(a[j]),
    ensures
        find_any(a + t, seps) == (if find_any(t, seps) < 0 { -1 } else { a.len() + find_any(t, seps) }),
    decreases a.len(),
{
    if a.len() > 0 {
        assert((a + t).drop_first() =~= a.drop_first() + t);
        lemma_find_any_concat(a.drop_first(), t, seps);
    } else {
        assert(a + t =~= t);
    }
}

/// `s` cut at every character in `seps`, as `str::split` with a set.
pub open spec fn split_any(s: Seq<char>, seps: Seq<char>) -> Seq<Seq<char>>
    decreases s.len(),
{
    let k = find_any(s, seps);
    if k < 0 {
        seq![s]
    } else {
        proof {
            lemma_find_any(s, seps);
        }
        seq![s.take(k)] + split_any(s.skip(k + 1), seps)
    }
}

fn is_sep(c: char, seps: &[char]) -> (b: bool)
    ensures
        b == seps@.contains(c),
{
    let mut i: usize = 0;
    while i < seps.len()
        invariant
            i <= seps@.len(),
            forall|j: int| 0 <= j < i ==> seps@[j] != c,
        decreases seps.len() - i,
    {
        if seps[i] == c {
            assert(seps@[i as int] == c);
            return true;
        }
        i = i + 1;
    }
    false
}

fn split_any_chars(s: &[char], seps: &[char]) -> (r: Vec<Vec<char>>)
    ensures
        views(r@) == split_any(s@, seps@),
{
    let mut pieces: Vec<Vec<char>> = Vec::new();
    let mut cur: Vec<char> = Vec::new();
    let mut i: usize = 0;
    assert(cur@ + s@.skip(0) =~= s@);
    assert(views(pieces@) + split_any(s@, seps@) =~= split_any(s@, seps@));
    while i < s.len()
        invariant
            i <= s@.len(),
            forall|j: int| 0 <= j < cur@.len() ==> !seps@.contains(cur@[j]),
            views(pieces@) + split_any(cur@ + s@.skip(i as int), seps@) == split_any(s@, seps@),
        decreases s.len() - i,
    {
        let x = s[i];
        if is_sep(x, seps) {
            proof {
                let t = cur@ + s@.skip(i as int);
                lemma_find_any_concat(cur@, s@.skip(i as int), seps@);
                assert(find_any(s@.skip(i as int), seps@) == 0);
                assert(t.take(cur@.len() as int) =~= cur@);
                assert(t.skip(cur@.len() + 1int) =~= s@.skip(i + 1));
            }
            let ghost old_pieces = pieces@;
            let done = cur;
            let ghost dv = done@;
            pieces.push(done);
            cur = Vec::new();
            proof {
                crate::text::lemma_views_push(old_pieces, done);
                assert(cur@ + s@.skip(i + 1) =~= s@.skip(i + 1));
                assert(views(old_pieces) + split_any(dv + s@.skip(i as int), seps@) =~= views(pieces@) + split_any(
                    cur@ + s@.skip(i + 1),
                    seps@,
                ));
            }
        } else {
            let ghost old_cur = cur@;
            cur.push(x);
            assert(old_cur + s@.skip(i as int) =~= cur@ + s@.skip(i + 1));
        }
        i = i + 1;
    }
    proof {
        assert(cur@ + s@.skip(i as int) =~= cur@);
        let ghost c = cur@;
        lemma_find_any(c, seps@);
        if find_any(c, seps@) >= 0 {
            assert(!seps@.contains(c[find_any(c, seps@)]));
        }
    }
    let ghost old_pieces = pieces@;
    let ghost last = cur@;
    proof {
        crate::text::lemma_views_push(old_pieces, cur);
    }
    pieces.push(cur);
    assert(split_any(last, seps@) =~= seq![last]);
    assert(views(pieces@) =~= views(old_pieces) + split_any(last, seps@));
    pieces
}

/// The entries of the variable: split at the separators, empty ones dropped.
pub open spec fn entries_of(current: Seq<char>, seps: Seq<char>) -> Seq<Seq<char>> {
    split_any(current, seps).filter(|p: Seq<char>| p.len() > 0)
}

/// The entries that survive: those not pointing into the AppImage.
pub open spec fn kept_of(current: Seq<char>, appdir: Option<Seq<char>>, seps: Seq<char>) -> Seq<Seq<char>> {
    entries_of(current, seps).filter(|p: Seq<char>| !appimage_path(p, appdir))
}

/// The variable's fate: unchanged when nothing points into the AppImage,
/// removed when everything does, else the surviving entries `:`-joined.
pub open spec fn sanitized_of(current: Seq<char>, appdir: Option<Seq<char>>, seps: Seq<char>) -> (bool, bool, Seq<char>) {
    let kept = kept_of(current, appdir, seps);
    if kept.len() == entries_of(current, seps).len() {
        (true, false, Seq::empty())
    } else if kept.len() == 0 {
        (false, true, Seq::empty())
    } else {
        (false, false, join(kept, ":"@))
    }
}

pub fn sanitized(current: &str, appdir: Option<&str>, seps: &[char]) -> (r: Sanitized)
    ensures
        ({
            let (unchanged, remove, value) = sanitized_of(
                current@,
                match appdir {
                    Some(d) => Some(d@),
                    None => None,
                },
                seps@,
            );
            match r {
                Sanitized::Unchanged => unchanged,
                Sanitized::Remove => !unchanged && remove,
                Sanitized::SetTo(v) => !unchanged && !remove && v@ == value,
            }
        }),
{
    let ghost ad = match appdir {
        Some(d) => Some(d@),
        None => None,
    };
    let ghost nonempty = |p: Seq<char>| p.len() > 0;
    let ghost keep = |p: Seq<char>| !appimage_path(p, ad);
    let v = chars_of(current);
    let parts = split_any_chars(v.as_slice(), seps);
    let ghost pv = views(parts@);
    let mut n_entries: usize = 0;
    let mut kept: Vec<Vec<char>> = Vec::new();
    let mut i: usize = 0;
    while i < parts.len()
        invariant
            i <= parts@.len(),
            pv == views(parts@),
            pv == split_any(current@, seps@),
            nonempty == (|p: Seq<char>| p.len() > 0),
            keep == (|p: Seq<char>| !appimage_path(p, ad)),
            ad == (match appdir {
                Some(d) => Some(d@),
                None => None,
            }),
            n_entries == pv.take(i as int).filter(nonempty).len(),
            views(kept@) == pv.take(i as int).filter(nonempty).filter(keep),
        decreases parts.len() - i,
    {
        let ghost k0 = kept@;
        proof {
            assert(pv.take(i + 1) =~= pv.take(i as int).push(pv[i as int]));
            pv.take(i as int).lemma_filter_push(pv[i as int], nonempty);
            pv.take(i as int).filter(nonempty).lemma_filter_push(pv[i as int], keep);
        }
        if parts[i].len() > 0 {
            n_entries = n_entries + 1;
            let ps = string_of(parts[i].as_slice());
            if !is_appimage_path(ps.as_str(), appdir) {
                let p = parts[i].clone();
                kept.push(p);
                proof {
                    crate::text::lemma_views_push(k0, p);
                }
            }
        }
        i = i + 1;
    }
    assert(pv.take(i as int) =~= pv);
    if kept.len() == n_entries {
        Sanitized::Unchanged
    } else if kept.len() == 0 {
        Sanitized::Remove
    } else {
        let colon = chars_of(":");
        let j = join_chars(kept.as_slice(), colon.as_slice());
        Sanitized::SetTo(string_of(j.as_slice()))
    }
}

} // verus!

verus! {

proof fn lemma_sub_in_prefix(s: Seq<char>, p: Seq<char>, k: int)
    requires
        0 <= k <= s.len(),
        has_sub(s.take(k), p),
    ensures
        has_sub(s, p),
{
    let i = choose|i: int| crate::text::occurs_at(s.take(k), p, i);
    assert(s.subrange(i, i + p.len()) =~= s.take(k).subrange(i, i + p.len()));
    assert(crate::text::occurs_at(s, p, i));
}

proof fn lemma_sub_in_suffix(s: Seq<char>, p: Seq<char>, k: int)
    requires
        0 <= k <= s.len(),
        has_sub(s.skip(k), p),
    ensures
        has_sub(s, p),
{
    let i = choose|i: int| crate::text::occurs_at(s.skip(k), p, i);
    assert(s.subrange(i + k, i + k + p.len()) =~= s.skip(k).subrange(i, i + p.len()));
    assert(crate::text::occurs_at(s, p, i + k));
}

/// What the text lacks, none of its pieces holds.
proof fn lemma_pieces_lack(s: Seq<char>, seps: Seq<char>, p: Seq<char>)
    requires
        !has_sub(s, p),
    ensures
        forall|i: int| 0 <= i < split_any(s, seps).len() ==> !has_sub(#[trigger] split_any(s, seps)[i], p),
    decreases s.len(),
{
    lemma_find_any(s, seps);
    let k = find_any(s, seps);
    if k >= 0 {
        if has_sub(s.take(k), p) {
            lemma_sub_in_prefix(s, p, k);
        }
        if has_sub(s.skip(k + 1), p) {
            lemma_sub_in_suffix(s, p, k + 1);
        }
        lemma_pieces_lack(s.skip(k + 1), seps, p);
        let rest = split_any(s.skip(k + 1), seps);
        assert forall|i: int| 0 <= i < split_any(s, seps).len() implies !has_sub(#[trigger] split_any(s, seps)[i], p) by {
            if i > 0 {
                assert(split_any(s, seps)[i] == rest[i - 1]);
            }
        }
    }
}

proof fn lemma_filter_keeps_all(s: Seq<Seq<char>>, q: spec_fn(Seq<char>) -> bool)
    requires
        forall|i: int| 0 <= i < s.len() ==> q(#[trigger] s[i]),
    ensures
        s.filter(q) == s,
    decreases s.len(),
{
    if s.len() > 0 {
        let init = s.drop_last();
        assert forall|i: int| 0 <= i < init.len() implies q(#[trigger] init[i]) by {
            assert(init[i] == s[i]);
        }
        lemma_filter_keeps_all(init, q);
        init.lemma_filter_push(s.last(), q);
        assert(init.push(s.last()) =~= s);
    } else {
        assert(s.filter(q) =~= s) by {
            reveal(Seq::filter);
        }
    }
}

/// Outside an AppImage the variable is left as it is: with no `APPDIR`
/// and no AppImage mount in the value, nothing is removed.
pub proof fn lemma_no_op_outside_appimage(current: Seq<char>, seps: Seq<char>)
    requires
        !has_sub(current, "/.mount_"@),
    ensures
        sanitized_of(current, None, seps).0,
{
    lemma_pieces_lack(current, seps, "/.mount_"@);
    let pieces = split_any(current, seps);
    let entries = entries_of(current, seps);
    let keep = |p: Seq<char>| !appimage_path(p, None);
    assert forall|i: int| 0 <= i < entries.len() implies keep(#[trigger] entries[i]) by {
        assert(entries.contains(entries[i]));
        pieces.lemma_filter_contains_rev(|p: Seq<char>| p.len() > 0, entries[i]);
        let j = choose|j: int| 0 <= j < pieces.len() && pieces[j] == entries[i];
        assert(!has_sub(pieces[j], "/.mount_"@));
    }
    lemma_filter_keeps_all(entries, keep);
    assert(kept_of(current, None, seps) == entries);
}

} // verus!
