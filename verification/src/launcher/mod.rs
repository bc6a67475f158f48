//! Starting the game: what every platform shares, namely the user's custom
//! environment variables, the launch log tail and how a finished process is
//! reported. Each platform module builds its own command line and script.

use vstd::prelude::*;

use crate::text::{
    alpha, chars_of, digit, is_alpha, is_digit, join, lines, lines_chars, split_once,
    split_once_chars, string_of, trim, trimmed, views, join_chars,
};

pub mod linux;
pub mod macos;
pub mod windows;

verus! {

/// How a finished game process exited.
#[derive(Debug, Clone, Copy)]
pub struct ExitInfo {
    pub code: Option<i32>,
}

/// A POSIX environment variable name: an ASCII letter or underscore, then
/// letters, digits and underscores.
pub open spec fn valid_env_name(s: Seq<char>) -> bool {
    &&& s.len() > 0
    &&& (is_alpha(s[0]) || s[0] == '_')
    &&& forall|i: int| 1 <= i < s.len() ==> is_alpha(#[trigger] s[i]) || is_digit(s[i]) || s[i] == '_'
}

fn valid_name_chars(s: &[char]) -> (b: bool)
    ensures
        b == valid_env_name(s@),
{
    if s.len() == 0 {
        return false;
    }
    if !(alpha(s[0]) || s[0] == '_') {
        return false;
    }
    let mut i: usize = 1;
    while i < s.len()
        invariant
            1 <= i <= s.len(),
            forall|j: int| 1 <= j < i ==> is_alpha(#[trigger] s@[j]) || is_digit(s@[j]) || s@[j] == '_',
        decreases s.len() - i,
    {
        let c = s[i];
        if !(alpha(c) || digit(c) || c == '_') {
            return false;
        }
        i = i + 1;
    }
    true
}

/// Whether `name` can stand as `NAME` in `export NAME=value`: a malformed
/// name is rejected rather than quoted into shell syntax.
pub fn is_valid_env_var_name(name: &str) -> (b: bool)
    ensures
        b == valid_env_name(name@),
{
    let v = chars_of(name);
    valid_name_chars(v.as_slice())
}

/// The `(KEY, VALUE)` one custom-env-var line stands for: blank lines, `#`
/// comments, lines without `=` and invalid names stand for nothing.
pub open spec fn env_entry(line: Seq<char>) -> Option<(Seq<char>, Seq<char>)> {
    let t = trim(line);
    if t.len() == 0 || t[0] == '#' {
        None
    } else {
        match split_once(t, '=') {
            None => None,
            Some((k, v)) => if valid_env_name(trim(k)) {
                Some((trim(k), trim(v)))
            } else {
                None
            },
        }
    }
}

/// The entries of a sequence of lines, in order.
pub open spec fn env_entries(ls: Seq<Seq<char>>) -> Seq<(Seq<char>, Seq<char>)>
    decreases ls.len(),
{
    if ls.len() == 0 {
        seq![]
    } else {
        env_entries(ls.drop_last()) + match env_entry(ls.last()) {
            Some(e) => seq![e],
            None => seq![],
        }
    }
}

/// Every name the custom-env-vars setting yields can stand in `export`:
/// a malformed line never reaches the launch script.
pub proof fn lemma_env_names_valid(ls: Seq<Seq<char>>)
    ensures
        forall|i: int| 0 <= i < env_entries(ls).len() ==> valid_env_name(#[trigger] env_entries(ls)[i].0),
    decreases ls.len(),
{
    if ls.len() > 0 {
        lemma_env_names_valid(ls.drop_last());
        let prev = env_entries(ls.drop_last());
        assert forall|i: int| 0 <= i < env_entries(ls).len() implies valid_env_name(#[trigger] env_entries(ls)[i].0) by {
            if i < prev.len() {
                assert(env_entries(ls)[i] == prev[i]);
            }
        }
    }
}

pub open spec fn pair_views(v: Seq<(String, String)>) -> Seq<(Seq<char>, Seq<char>)> {
    v.map_values(|p: (String, String)| (p.0@, p.1@))
}

/// The `KEY=VALUE` lines of the custom-env-vars setting, skipping blank
/// lines, `#` comments and malformed names; keys and values are trimmed.
pub fn parse_custom_env_vars(raw: &str) -> (r: Vec<(String, String)>)
    ensures
        pair_views(r@) == env_entries(lines(raw@)),
        forall|i: int| 0 <= i < r@.len() ==> valid_env_name((#[trigger] r@[i]).0@),
{
    let chars = chars_of(raw);
    let ls = lines_chars(chars.as_slice());
    let ghost lv = views(ls@);
    let mut out: Vec<(String, String)> = Vec::new();
    let mut i: usize = 0;
    assert(lv.take(0) =~= Seq::<Seq<char>>::empty());
    assert(pair_views(out@) =~= env_entries(lv.take(0)));
    while i < ls.len()
        invariant
            i <= ls@.len(),
            lv == views(ls@),
            lv == lines(raw@),
            pair_views(out@) == env_entries(lv.take(i as int)),
        decreases ls.len() - i,
    {
        assert(lv.take(i + 1).drop_last() =~= lv.take(i as int));
        assert(lv.take(i + 1).last() == ls@[i as int]@);
        let ghost before = out@;
        let t = trimmed(ls[i].as_slice());
        if t.len() > 0 && t[0] != '#' {
            match split_once_chars(t.as_slice(), '=') {
                Some((k, v)) => {
                    let key = trimmed(k.as_slice());
                    if valid_name_chars(key.as_slice()) {
                        let value = trimmed(v.as_slice());
                        let ks = string_of(key.as_slice());
                        let vs = string_of(value.as_slice());
                        out.push((ks, vs));
                        assert(pair_views(out@) =~= pair_views(before).push((key@, value@)));
                    }
                },
                None => {},
            }
        }
        assert(pair_views(out@) =~= env_entries(lv.take(i + 1)));
        i = i + 1;
    }
    assert(lv.take(ls@.len() as int) =~= lv);
    proof {
        lemma_env_names_valid(lv);
        assert forall|i: int| 0 <= i < out@.len() implies valid_env_name((#[trigger] out@[i]).0@) by {
            assert(pair_views(out@)[i] == (out@[i].0@, out@[i].1@));
            assert(env_entries(lv)[i] == pair_views(out@)[i]);
            assert(valid_env_name(env_entries(lv)[i].0));
        }
    }
    out
}

/// The last `max_lines` lines of a log, joined with `\n`.
pub open spec fn tail_of(content: Seq<char>, max_lines: nat) -> Seq<char> {
    let ls = lines(content);
    let start = if ls.len() > max_lines { ls.len() - max_lines } else { 0 };
    join(ls.skip(start), "\n"@)
}

/// The tail of the launch log as the failure dialog shows it: its last
/// `max_lines` lines.
pub fn log_tail(content: &str, max_lines: usize) -> (r: String)
    ensures
        r@ == tail_of(content@, max_lines as nat),
{
    let chars = chars_of(content);
    let ls = lines_chars(chars.as_slice());
    let start: usize = if ls.len() > max_lines { ls.len() - max_lines } else { 0 };
    let mut kept: Vec<Vec<char>> = Vec::new();
    let mut i: usize = start;
    while i < ls.len()
        invariant
            start <= i <= ls@.len(),
            views(kept@) == views(ls@).subrange(start as int, i as int),
        decreases ls.len() - i,
    {
        let ghost k0 = kept@;
        kept.push(ls[i].clone());
        proof {
            crate::text::lemma_views_push(k0, kept@.last());
        }
        assert(views(kept@) =~= views(ls@).subrange(start as int, i + 1));
        i = i + 1;
    }
    assert(views(ls@).subrange(start as int, ls@.len() as int) =~= views(ls@).skip(start as int));
    let nl = chars_of("\n");
    let joined = join_chars(kept.as_slice(), nl.as_slice());
    string_of(joined.as_slice())
}

} // verus!

verus! {

/// `s` when `b` holds, nothing otherwise.
pub open spec fn opt_text(b: bool, s: Seq<char>) -> Seq<char> {
    if b {
        s
    } else {
        Seq::empty()
    }
}

/// Append `s` when `b` holds.
pub fn push_when(out: &mut Vec<char>, b: bool, s: &str)
    ensures
        final(out)@ == old(out)@ + opt_text(b, s@),
{
    if b {
        crate::text::push_str(out, s);
    } else {
        assert(old(out)@ + opt_text(b, s@) =~= old(out)@);
    }
}

/// One `export KEY='VALUE'` line per entry, in order.
pub open spec fn exports(es: Seq<(Seq<char>, Seq<char>)>) -> Seq<char>
    decreases es.len(),
{
    if es.len() == 0 {
        seq![]
    } else {
        exports(es.drop_last()) + "export "@ + es.last().0 + "="@ + crate::text::shell_quoted(
            es.last().1,
        ) + "\n"@
    }
}

/// Append the `export` lines of the user's custom environment variables.
pub fn push_exports(out: &mut Vec<char>, entries: &[(String, String)])
    ensures
        final(out)@ == old(out)@ + exports(pair_views(entries@)),
{
    let ghost o0 = old(out)@;
    let mut i: usize = 0;
    assert(pair_views(entries@).take(0) =~= Seq::<(Seq<char>, Seq<char>)>::empty());
    assert(out@ =~= o0 + exports(pair_views(entries@).take(0)));
    while i < entries.len()
        invariant
            i <= entries@.len(),
            out@ == o0 + exports(pair_views(entries@).take(i as int)),
        decreases entries.len() - i,
    {
        let ghost before = out@;
        assert(pair_views(entries@).take(i + 1).drop_last() =~= pair_views(entries@).take(i as int));
        let (k, v) = (&entries[i].0, &entries[i].1);
        crate::text::push_str(out, "export ");
        crate::text::push_str(out, k.as_str());
        crate::text::push_str(out, "=");
        let q = crate::text::shell_escape(v.as_str());
        crate::text::push_str(out, q.as_str());
        crate::text::push_str(out, "\n");
        assert(out@ =~= o0 + exports(pair_views(entries@).take(i + 1)));
        i = i + 1;
    }
    assert(pair_views(entries@).take(entries@.len() as int) =~= pair_views(entries@));
}

} // verus!
