//! Post-mortem analysis of the launch log for failure signatures whose fix
//! is known, so the failure dialog can say what to do.

use vstd::prelude::*;

use crate::text::{chars_of, has_sub, lines, split, split_chars, starts_with, views};

verus! {

/// DWProton 11.x cannot run the game: the anti-cheat driver calls ntoskrnl
/// stubs Wine leaves unimplemented and Wine aborts.
pub const HINT_DWPROTON11_NTOSKRNL: &'static str = "dwproton11-ntoskrnl";

/// The last component of a path, as `Path::file_name` has it: empty and `.`
/// components do not count, and a path ending in `..` has none.
pub open spec fn file_name_of(p: Seq<char>) -> Option<Seq<char>> {
    let segs = split(p, '/').filter(|s: Seq<char>| s.len() > 0 && s != "."@);
    if segs.len() == 0 || segs.last() == ".."@ {
        None
    } else {
        Some(segs.last())
    }
}

pub fn file_name(p: &str) -> (r: Option<Vec<char>>)
    ensures
        match r {
            Some(n) => file_name_of(p@) == Some(n@),
            None => file_name_of(p@) is None,
        },
{
    let v = chars_of(p);
    let parts = split_chars(v.as_slice(), '/');
    let ghost pv = views(parts@);
    let dot = chars_of(".");
    let dd = chars_of("..");
    let mut last: Option<usize> = None;
    let mut i: usize = 0;
    let ghost pred = |s: Seq<char>| s.len() > 0 && s != "."@;
    while i < parts.len()
        invariant
            i <= parts@.len(),
            pv == views(parts@),
            dot@ == "."@,
            dd@ == ".."@,
            pred == (|s: Seq<char>| s.len() > 0 && s != "."@),
            match last {
                Some(k) => k < i && pv.take(i as int).filter(pred).len() > 0
                    && pv.take(i as int).filter(pred).last() == pv[k as int],
                None => pv.take(i as int).filter(pred).len() == 0,
            },
        decreases parts.len() - i,
    {
        proof {
            assert(pv.take(i + 1) =~= pv.take(i as int).push(pv[i as int]));
            pv.take(i as int).lemma_filter_push(pv[i as int], pred);
        }
        if parts[i].len() > 0 && !crate::text::eq_chars(parts[i].as_slice(), dot.as_slice()) {
            last = Some(i);
        }
        i = i + 1;
    }
    assert(pv.take(i as int) =~= pv);
    match last {
        None => None,
        Some(k) => {
            if crate::text::eq_chars(parts[k].as_slice(), dd.as_slice()) {
                None
            } else {
                Some(parts[k].clone())
            }
        },
    }
}

/// A DWProton 11.x build, recognized on the directory's own name.
pub open spec fn dwproton_11(proton_dir: Seq<char>) -> bool {
    match file_name_of(proton_dir) {
        Some(n) => starts_with(n, "dwproton-11"@),
        None => false,
    }
}

pub fn is_dwproton_11(proton_dir: &str) -> (b: bool)
    ensures
        b == dwproton_11(proton_dir@),
{
    match file_name(proton_dir) {
        Some(n) => {
            let p = chars_of("dwproton-11");
            crate::text::has_prefix(n.as_slice(), p.as_slice())
        },
        None => false,
    }
}

/// A log line where Wine aborts on an unimplemented ntoskrnl stub.
pub open spec fn ntoskrnl_abort(l: Seq<char>) -> bool {
    has_sub(l, "unimplemented function ntoskrnl.exe."@) && has_sub(l, "aborting"@)
}

/// The known failure a launch log shows, if any: an ntoskrnl stub abort on
/// a DWProton 11.x build. Wrong advice is worse than none, so anything else
/// gets no hint.
pub fn diagnose_launch_failure(log_tail: &str, proton_dir: &str) -> (r: Option<&'static str>)
    ensures
        r is Some <==> (exists|i: int|
            0 <= i < lines(log_tail@).len() && #[trigger] ntoskrnl_abort(lines(log_tail@)[i]))
            && dwproton_11(proton_dir@),
        r matches Some(h) ==> h@ == HINT_DWPROTON11_NTOSKRNL@,
{
    let v = chars_of(log_tail);
    let ls = crate::text::lines_chars(v.as_slice());
    let a = chars_of("unimplemented function ntoskrnl.exe.");
    let b = chars_of("aborting");
    let mut found = false;
    let mut i: usize = 0;
    while i < ls.len() && !found
        invariant
            i <= ls@.len(),
            views(ls@) == lines(log_tail@),
            a@ == "unimplemented function ntoskrnl.exe."@,
            b@ == "aborting"@,
            found ==> exists|j: int| 0 <= j < lines(log_tail@).len() && #[trigger] ntoskrnl_abort(lines(log_tail@)[j]),
            !found ==> forall|j: int| 0 <= j < i ==> !#[trigger] ntoskrnl_abort(lines(log_tail@)[j]),
        decreases ls.len() - i,
    {
        assert(lines(log_tail@)[i as int] == ls@[i as int]@);
        if crate::text::contains_sub(ls[i].as_slice(), a.as_slice()) && crate::text::contains_sub(
            ls[i].as_slice(),
            b.as_slice(),
        ) {
            assert(ntoskrnl_abort(lines(log_tail@)[i as int]));
            found = true;
        }
        i = i + 1;
    }
    if found && is_dwproton_11(proton_dir) {
        Some(HINT_DWPROTON11_NTOSKRNL)
    } else {
        None
    }
}

} // verus!
