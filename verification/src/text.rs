//! Character-sequence helpers shared by every module that reads or builds
//! text. Text is handled as `Vec<char>`; `&str` and `String` are converted at
//! the edges of the public functions.

use vstd::prelude::*;

verus! {

/// ASCII letter.
pub open spec fn is_alpha(c: char) -> bool {
    ('a' <= c && c <= 'z') || ('A' <= c && c <= 'Z')
}

/// ASCII decimal digit.
pub open spec fn is_digit(c: char) -> bool {
    '0' <= c && c <= '9'
}

/// ASCII hexadecimal digit, either case.
pub open spec fn is_hex(c: char) -> bool {
    is_digit(c) || ('a' <= c && c <= 'f') || ('A' <= c && c <= 'F')
}

/// Unicode `White_Space`, the set `char::is_whitespace` tests for.
pub open spec fn is_ws(c: char) -> bool {
    ||| ('\t' <= c && c <= '\r')
    ||| c == ' '
    ||| c == '\u{85}'
    ||| c == '\u{A0}'
    ||| c == '\u{1680}'
    ||| ('\u{2000}' <= c && c <= '\u{200A}')
    ||| c == '\u{2028}'
    ||| c == '\u{2029}'
    ||| c == '\u{202F}'
    ||| c == '\u{205F}'
    ||| c == '\u{3000}'
}

pub fn alpha(c: char) -> (b: bool)
    ensures
        b == is_alpha(c),
{
    ('a' <= c && c <= 'z') || ('A' <= c && c <= 'Z')
}

pub fn digit(c: char) -> (b: bool)
    ensures
        b == is_digit(c),
{
    '0' <= c && c <= '9'
}

pub fn whitespace(c: char) -> (b: bool)
    ensures
        b == is_ws(c),
{
    ('\t' <= c && c <= '\r') || c == ' ' || c == '\u{85}' || c == '\u{A0}' || c == '\u{1680}'
        || ('\u{2000}' <= c && c <= '\u{200A}') || c == '\u{2028}' || c == '\u{2029}'
        || c == '\u{202F}' || c == '\u{205F}' || c == '\u{3000}'
}

/// The characters of a string slice, in order.
pub(crate) fn chars_of(s: &str) -> (v: Vec<char>)
    ensures
        v@ == s@,
{
    broadcast use vstd::string::axiom_spec_iter;
    let mut v: Vec<char> = Vec::new();
    for c in it: s.chars()
        invariant
            v@ == it.seq().take(it.index() as int),
    {
        v.push(c);
    }
    v
}

} // verus!
verus! {

/// ASCII lower case of one character; everything else is left alone.
pub open spec fn lower(c: char) -> char {
    if 'A' <= c && c <= 'Z' {
        ((c as u32) + 32) as char
    } else {
        c
    }
}

/// ASCII upper case of one character; everything else is left alone.
pub open spec fn upper(c: char) -> char {
    if 'a' <= c && c <= 'z' {
        ((c as u32) - 32) as char
    } else {
        c
    }
}

pub fn to_lower(c: char) -> (r: char)
    ensures
        r == lower(c),
{
    if 'A' <= c && c <= 'Z' {
        let b: u8 = c as u8;
        assert(b as u32 == c as u32);
        ((b + 32) as char)
    } else {
        c
    }
}

/// Two texts equal under ASCII case folding, as `eq_ignore_ascii_case`.
pub open spec fn eq_ic(a: Seq<char>, b: Seq<char>) -> bool {
    a.len() == b.len() && forall|i: int| 0 <= i < a.len() ==> lower(#[trigger] a[i]) == lower(b[i])
}

pub open spec fn starts_with(s: Seq<char>, p: Seq<char>) -> bool {
    p.len() <= s.len() && s.take(p.len() as int) == p
}

pub open spec fn ends_with(s: Seq<char>, p: Seq<char>) -> bool {
    p.len() <= s.len() && s.skip(s.len() - p.len()) == p
}

/// `p` occurs in `s` at position `i`.
pub open spec fn occurs_at(s: Seq<char>, p: Seq<char>, i: int) -> bool {
    0 <= i && i + p.len() <= s.len() && s.subrange(i, i + p.len()) == p
}

/// `p` occurs somewhere in `s`, as `str::contains`.
pub open spec fn has_sub(s: Seq<char>, p: Seq<char>) -> bool {
    exists|i: int| occurs_at(s, p, i)
}

pub open spec fn trim_start(s: Seq<char>) -> Seq<char>
    decreases s.len(),
{
    if s.len() > 0 && is_ws(s[0]) {
        trim_start(s.drop_first())
    } else {
        s
    }
}

pub open spec fn trim_end(s: Seq<char>) -> Seq<char>
    decreases s.len(),
{
    if s.len() > 0 && is_ws(s.last()) {
        trim_end(s.drop_last())
    } else {
        s
    }
}

/// Whitespace removed at both ends, as `str::trim`.
pub open spec fn trim(s: Seq<char>) -> Seq<char> {
    trim_end(trim_start(s))
}

/// Index of the first `c` in `s`, or -1.
pub open spec fn find(s: Seq<char>, c: char) -> int
    decreases s.len(),
{
    if s.len() == 0 {
        -1
    } else if s[0] == c {
        0
    } else if find(s.drop_first(), c) < 0 {
        -1
    } else {
        find(s.drop_first(), c) + 1
    }
}

/// The pieces between occurrences of `c`, as `str::split` with a char.
pub open spec fn split(s: Seq<char>, c: char) -> Seq<Seq<char>>
    decreases s.len(),
{
    let k = find(s, c);
    if k < 0 {
        seq![s]
    } else {
        proof {
            lemma_find_bounds(s, c);
        }
        seq![s.take(k)] + split(s.skip(k + 1), c)
    }
}

/// Around the first `c`, as `str::split_once` with a char.
pub open spec fn split_once(s: Seq<char>, c: char) -> Option<(Seq<char>, Seq<char>)> {
    let k = find(s, c);
    if k < 0 {
        None
    } else {
        Some((s.take(k), s.skip(k + 1)))
    }
}

/// A line without the carriage return that ends it, if any.
pub open spec fn strip_cr(l: Seq<char>) -> Seq<char> {
    if l.len() > 0 && l.last() == '\r' {
        l.drop_last()
    } else {
        l
    }
}

/// The lines of a text, as `str::lines`: split at `\n`, a `\r` before it
/// dropped, no empty line after a final newline.
pub open spec fn lines(s: Seq<char>) -> Seq<Seq<char>>
    decreases s.len(),
{
    if s.len() == 0 {
        seq![]
    } else {
        let k = find(s, '\n');
        if k < 0 {
            seq![s]
        } else {
            proof {
                lemma_find_bounds(s, '\n');
            }
            seq![strip_cr(s.take(k))] + lines(s.skip(k + 1))
        }
    }
}

/// `parts` joined with `sep` between neighbours, as `slice::join`.
pub open spec fn join(parts: Seq<Seq<char>>, sep: Seq<char>) -> Seq<char>
    decreases parts.len(),
{
    if parts.len() == 0 {
        seq![]
    } else if parts.len() == 1 {
        parts[0]
    } else {
        join(parts.drop_last(), sep) + sep + parts.last()
    }
}

/// Every `c` in `s` replaced by `r`, as `str::replace` with a char.
pub open spec fn replace(s: Seq<char>, c: char, r: Seq<char>) -> Seq<char>
    decreases s.len(),
{
    if s.len() == 0 {
        seq![]
    } else {
        (if s[0] == c { r } else { seq![s[0]] }) + replace(s.drop_first(), c, r)
    }
}

/// The texts held by a vector of character vectors.
pub open spec fn views(v: Seq<Vec<char>>) -> Seq<Seq<char>> {
    v.map_values(|x: Vec<char>| x@)
}

pub proof fn lemma_views_push(v: Seq<Vec<char>>, x: Vec<char>)
    ensures
        views(v.push(x)) == views(v).push(x@),
{
    assert(views(v.push(x)) =~= views(v).push(x@));
}

// ---------------------------------------------------------------------------
// Lemmas
// ---------------------------------------------------------------------------

pub proof fn lemma_find_bounds(s: Seq<char>, c: char)
    ensures
        -1 <= find(s, c) < s.len(),
        find(s, c) >= 0 ==> s[find(s, c)] == c,
        find(s, c) >= 0 ==> forall|j: int| 0 <= j < find(s, c) ==> s[j] != c,
        find(s, c) < 0 ==> forall|j: int| 0 <= j < s.len() ==> s[j] != c,
    decreases s.len(),
{
    if s.len() > 0 && s[0] != c {
        lemma_find_bounds(s.drop_first(), c);
        assert forall|j: int| 1 <= j < s.len() implies s[j] == s.drop_first()[j - 1] by {}
    }
}

/// The first `c` of `a + t`, when `a` holds none.
pub proof fn lemma_find_concat(a: Seq<char>, t: Seq<char>, c: char)
    requires
        forall|j: int| 0 <= j < a.len() ==> a[j] != c,
    ensures
        find(a + t, c) == (if find(t, c) < 0 { -1 } else { a.len() + find(t, c) }),
    decreases a.len(),
{
    if a.len() > 0 {
        assert((a + t).drop_first() =~= a.drop_first() + t);
        lemma_find_concat(a.drop_first(), t, c);
    } else {
        assert(a + t =~= t);
    }
}

pub proof fn lemma_find_none(s: Seq<char>, c: char)
    requires
        forall|j: int| 0 <= j < s.len() ==> s[j] != c,
    ensures
        find(s, c) == -1,
    decreases s.len(),
{
    if s.len() > 0 {
        lemma_find_none(s.drop_first(), c);
    }
}

pub proof fn lemma_find_at(s: Seq<char>, c: char, k: int)
    requires
        0 <= k < s.len(),
        s[k] == c,
        forall|j: int| 0 <= j < k ==> s[j] != c,
    ensures
        find(s, c) == k,
{
    lemma_find_concat(s.take(k), s.skip(k), c);
    assert(s.take(k) + s.skip(k) =~= s);
}

pub proof fn lemma_join_push(parts: Seq<Seq<char>>, sep: Seq<char>, p: Seq<char>)
    ensures
        join(parts.push(p), sep) == (if parts.len() == 0 { p } else { join(parts, sep) + sep + p }),
{
    assert(parts.push(p).drop_last() =~= parts);
}

/// `on` is `off` with `line` put in somewhere, and nothing else changed.
#[verifier::opaque]
pub open spec fn inserted(off: Seq<char>, on: Seq<char>, line: Seq<char>) -> bool {
    exists|k: int| 0 <= k <= off.len() && on == off.take(k) + line + off.skip(k)
}

/// Putting `line` at the end of `p` is an insertion.
pub proof fn lemma_inserted_at_end(p: Seq<char>, line: Seq<char>)
    ensures
        inserted(p + Seq::<char>::empty(), p + line, line),
{
    reveal(inserted);
    let off = p + Seq::<char>::empty();
    let k = p.len() as int;
    assert(off.take(k) =~= p);
    assert(off.skip(k) =~= Seq::<char>::empty());
    assert(p + line =~= off.take(k) + line + off.skip(k));
}

/// An insertion stays one when the same text follows both sides.
pub proof fn lemma_inserted_extend(off: Seq<char>, on: Seq<char>, line: Seq<char>, x: Seq<char>)
    requires
        inserted(off, on, line),
    ensures
        inserted(off + x, on + x, line),
{
    reveal(inserted);
    let k = choose|k: int| 0 <= k <= off.len() && on == off.take(k) + line + off.skip(k);
    assert((off + x).take(k) =~= off.take(k));
    assert((off + x).skip(k) =~= off.skip(k) + x);
    assert(on + x =~= (off + x).take(k) + line + (off + x).skip(k));
}

/// A piece set between two others occurs in the whole.
pub proof fn lemma_has_sub_between(a: Seq<char>, m: Seq<char>, b: Seq<char>)
    ensures
        has_sub(a + m + b, m),
{
    assert((a + m + b).subrange(a.len() as int, (a.len() + m.len()) as int) =~= m);
    assert(occurs_at(a + m + b, m, a.len() as int));
}

/// A joined list starts with its first part.
pub proof fn lemma_join_starts_with_first(parts: Seq<Seq<char>>, sep: Seq<char>)
    requires
        parts.len() > 0,
    ensures
        join(parts, sep).len() >= parts[0].len(),
        join(parts, sep).take(parts[0].len() as int) == parts[0],
    decreases parts.len(),
{
    if parts.len() > 1 {
        let d = parts.drop_last();
        lemma_join_starts_with_first(d, sep);
        assert(d[0] == parts[0]);
        let j = join(d, sep) + sep + parts.last();
        assert(j.take(parts[0].len() as int) =~= join(d, sep).take(parts[0].len() as int));
    }
}

// ---------------------------------------------------------------------------
// Executable helpers
// ---------------------------------------------------------------------------

/// `s[a..b]` as a new vector.
pub fn slice_of(s: &[char], a: usize, b: usize) -> (r: Vec<char>)
    requires
        a <= b <= s@.len(),
    ensures
        r@ == s@.subrange(a as int, b as int),
{
    let mut r: Vec<char> = Vec::new();
    let mut i = a;
    while i < b
        invariant
            a <= i <= b <= s@.len(),
            r@ == s@.subrange(a as int, i as int),
        decreases b - i,
    {
        r.push(s[i]);
        i = i + 1;
        assert(r@ =~= s@.subrange(a as int, i as int));
    }
    r
}

/// `a` followed by `b`, appended in place.
pub fn push_all(a: &mut Vec<char>, b: &[char])
    ensures
        final(a)@ == old(a)@ + b@,
{
    let mut i: usize = 0;
    let ghost a0 = a@;
    while i < b.len()
        invariant
            i <= b@.len(),
            a@ == a0 + b@.take(i as int),
        decreases b.len() - i,
    {
        a.push(b[i]);
        i = i + 1;
        assert(a@ =~= a0 + b@.take(i as int));
    }
    assert(b@.take(b@.len() as int) =~= b@);
}

/// Append the characters of a string slice.
pub fn push_str(a: &mut Vec<char>, s: &str)
    ensures
        final(a)@ == old(a)@ + s@,
{
    let v = chars_of(s);
    push_all(a, v.as_slice());
}

pub fn eq_chars(a: &[char], b: &[char]) -> (r: bool)
    ensures
        r == (a@ == b@),
{
    if a.len() != b.len() {
        return false;
    }
    let mut i: usize = 0;
    while i < a.len()
        invariant
            a@.len() == b@.len(),
            i <= a@.len(),
            forall|j: int| 0 <= j < i ==> a@[j] == b@[j],
        decreases a.len() - i,
    {
        if a[i] != b[i] {
            return false;
        }
        i = i + 1;
    }
    assert(a@ =~= b@);
    true
}

pub fn eq_ignore_case(a: &[char], b: &[char]) -> (r: bool)
    ensures
        r == eq_ic(a@, b@),
{
    if a.len() != b.len() {
        return false;
    }
    let mut i: usize = 0;
    while i < a.len()
        invariant
            a@.len() == b@.len(),
            i <= a@.len(),
            forall|j: int| 0 <= j < i ==> lower(#[trigger] a@[j]) == lower(b@[j]),
        decreases a.len() - i,
    {
        if to_lower(a[i]) != to_lower(b[i]) {
            return false;
        }
        i = i + 1;
    }
    true
}

pub fn has_prefix(s: &[char], p: &[char]) -> (r: bool)
    ensures
        r == starts_with(s@, p@),
{
    if p.len() > s.len() {
        return false;
    }
    let mut i: usize = 0;
    while i < p.len()
        invariant
            p@.len() <= s@.len(),
            i <= p@.len(),
            forall|j: int| 0 <= j < i ==> s@[j] == p@[j],
        decreases p.len() - i,
    {
        if s[i] != p[i] {
            assert(s@.take(p@.len() as int)[i as int] != p@[i as int]);
            return false;
        }
        i = i + 1;
    }
    assert(s@.take(p@.len() as int) =~= p@);
    true
}

pub fn has_suffix(s: &[char], p: &[char]) -> (r: bool)
    ensures
        r == ends_with(s@, p@),
{
    if p.len() > s.len() {
        return false;
    }
    let n = s.len();
    let off = n - p.len();
    let mut i: usize = 0;
    while i < p.len()
        invariant
            n == s@.len(),
            p@.len() <= s@.len(),
            off == s@.len() - p@.len(),
            off + p@.len() == s@.len(),
            i <= p@.len(),
            forall|j: int| 0 <= j < i ==> s@[off + j] == p@[j],
        decreases p.len() - i,
    {
        assert(off + i < n);
        if s[off + i] != p[i] {
            assert(s@.skip(off as int)[i as int] != p@[i as int]);
            return false;
        }
        i = i + 1;
    }
    assert(s@.skip(off as int) =~= p@);
    true
}

/// Whether `p` occurs at position `i` of `s`.
pub fn matches_at(s: &[char], p: &[char], i: usize) -> (r: bool)
    ensures
        r == occurs_at(s@, p@, i as int),
{
    if i > s.len() || p.len() > s.len() - i {
        return false;
    }
    let n = s.len();
    let mut j: usize = 0;
    while j < p.len()
        invariant
            n == s@.len(),
            i + p@.len() <= s@.len(),
            j <= p@.len(),
            forall|k: int| 0 <= k < j ==> s@[i + k] == p@[k],
        decreases p.len() - j,
    {
        assert(i + j < n);
        if s[i + j] != p[j] {
            assert(s@.subrange(i as int, i + p@.len())[j as int] != p@[j as int]);
            return false;
        }
        j = j + 1;
    }
    assert(s@.subrange(i as int, i + p@.len()) =~= p@);
    true
}

/// Whether `p` occurs anywhere in `s`.
pub fn contains_sub(s: &[char], p: &[char]) -> (r: bool)
    ensures
        r == has_sub(s@, p@),
{
    if p.len() > s.len() {
        assert forall|i: int| !occurs_at(s@, p@, i) by {}
        return false;
    }
    let mut i: usize = 0;
    while i <= s.len() - p.len()
        invariant
            p@.len() <= s@.len(),
            i <= s@.len() - p@.len() + 1,
            forall|k: int| 0 <= k < i ==> !occurs_at(s@, p@, k),
        decreases s.len() - p.len() + 1 - i,
    {
        if i == s.len() - p.len() {
            return matches_at(s, p, i) || {
                assert forall|k: int| !occurs_at(s@, p@, k) by {
                    if 0 <= k && k + p@.len() <= s@.len() {
                        assert(k <= i);
                    }
                }
                false
            };
        }
        if matches_at(s, p, i) {
            return true;
        }
        i = i + 1;
    }
    assert forall|k: int| !occurs_at(s@, p@, k) by {
        if 0 <= k && k + p@.len() <= s@.len() {
            assert(k < i);
        }
    }
    false
}

/// Position of the first `c`, if any.
pub fn find_opt(s: &[char], c: char) -> (k: Option<usize>)
    ensures
        match k {
            Some(k) => k == find(s@, c),
            None => find(s@, c) < 0,
        },
{
    let mut i: usize = 0;
    while i < s.len()
        invariant
            i <= s@.len(),
            forall|j: int| 0 <= j < i ==> s@[j] != c,
        decreases s.len() - i,
    {
        if s[i] == c {
            proof {
                lemma_find_at(s@, c, i as int);
            }
            return Some(i);
        }
        i = i + 1;
    }
    proof {
        lemma_find_none(s@, c);
    }
    None
}

/// The parts before and after the first `c`, if there is one.
pub fn split_once_chars(s: &[char], c: char) -> (r: Option<(Vec<char>, Vec<char>)>)
    ensures
        match r {
            Some((a, b)) => split_once(s@, c) == Some((a@, b@)),
            None => split_once(s@, c) is None,
        },
{
    match find_opt(s, c) {
        Some(k) => {
            proof {
                lemma_find_bounds(s@, c);
            }
            let n = s.len();
            assert(k < n);
            let a = slice_of(s, 0, k);
            let b = slice_of(s, k + 1, n);
            assert(a@ =~= s@.take(k as int));
            assert(b@ =~= s@.skip(k + 1));
            Some((a, b))
        },
        None => None,
    }
}

pub fn trimmed(s: &[char]) -> (r: Vec<char>)
    ensures
        r@ == trim(s@),
{
    let mut a: usize = 0;
    assert(s@.skip(0) =~= s@);
    while a < s.len() && whitespace(s[a])
        invariant
            a <= s@.len(),
            trim_start(s@) == trim_start(s@.skip(a as int)),
        decreases s.len() - a,
    {
        assert(s@.skip(a as int).drop_first() =~= s@.skip(a + 1));
        a = a + 1;
    }
    assert(trim_start(s@) == s@.skip(a as int));
    let ghost t = s@.skip(a as int);
    let mut b: usize = s.len();
    assert(t.take(b - a) =~= t);
    while b > a && whitespace(s[b - 1])
        invariant
            a <= b <= s@.len(),
            t == s@.skip(a as int),
            trim_end(t) == trim_end(t.take(b - a)),
        decreases b,
    {
        assert(t.take(b - a).drop_last() =~= t.take(b - 1 - a));
        b = b - 1;
    }
    assert(trim_end(t.take(b - a)) == t.take(b - a));
    assert(t.take(b - a) =~= s@.subrange(a as int, b as int));
    slice_of(s, a, b)
}

/// The pieces of `s` between occurrences of `c`.
pub fn split_chars(s: &[char], c: char) -> (r: Vec<Vec<char>>)
    ensures
        views(r@) == split(s@, c),
{
    let mut pieces: Vec<Vec<char>> = Vec::new();
    let mut cur: Vec<char> = Vec::new();
    let mut i: usize = 0;
    assert(cur@ + s@.skip(0) =~= s@);
    assert(views(pieces@) + split(s@, c) =~= split(s@, c));
    while i < s.len()
        invariant
            i <= s@.len(),
            forall|j: int| 0 <= j < cur@.len() ==> cur@[j] != c,
            views(pieces@) + split(cur@ + s@.skip(i as int), c) == split(s@, c),
        decreases s.len() - i,
    {
        let x = s[i];
        if x == c {
            proof {
                let t = cur@ + s@.skip(i as int);
                lemma_find_concat(cur@, s@.skip(i as int), c);
                assert(find(s@.skip(i as int), c) == 0);
                assert(t.take(cur@.len() as int) =~= cur@);
                assert(t.skip(cur@.len() + 1int) =~= s@.skip(i + 1));
            }
            let ghost old_pieces = pieces@;
            let done = cur;
            let ghost dv = done@;
            pieces.push(done);
            cur = Vec::new();
            proof {
                lemma_views_push(old_pieces, done);
                assert(cur@ + s@.skip(i + 1) =~= s@.skip(i + 1));
                assert(views(old_pieces) + split(dv + s@.skip(i as int), c) =~= views(pieces@) + split(
                    cur@ + s@.skip(i + 1),
                    c,
                ));
            }
        } else {
            let ghost old_cur = cur@;
            cur.push(x);
            assert(old_cur + s@.skip(i as int) =~= cur@ + s@.skip(i + 1));
        }
        i = i + 1;
    }
    proof {
        assert(cur@ + s@.skip(i as int) =~= cur@);
        lemma_find_none(cur@, c);
    }
    let ghost old_pieces = pieces@;
    let ghost last = cur@;
    proof {
        lemma_views_push(old_pieces, cur);
    }
    pieces.push(cur);
    assert(split(last, c) =~= seq![last]);
    assert(views(pieces@) =~= views(old_pieces) + split(last, c));
    pieces
}

} // verus!

verus! {

/// The lines of a text, without their line endings.
pub fn lines_chars(s: &[char]) -> (r: Vec<Vec<char>>)
    ensures
        views(r@) == lines(s@),
{
    let mut pieces: Vec<Vec<char>> = Vec::new();
    let mut cur: Vec<char> = Vec::new();
    let mut i: usize = 0;
    assert(cur@ + s@.skip(0) =~= s@);
    assert(views(pieces@) + lines(s@) =~= lines(s@));
    while i < s.len()
        invariant
            i <= s@.len(),
            forall|j: int| 0 <= j < cur@.len() ==> cur@[j] != '\n',
            views(pieces@) + lines(cur@ + s@.skip(i as int)) == lines(s@),
        decreases s.len() - i,
    {
        let x = s[i];
        if x == '\n' {
            let ghost cv = cur@;
            proof {
                let t = cur@ + s@.skip(i as int);
                lemma_find_concat(cur@, s@.skip(i as int), '\n');
                assert(find(s@.skip(i as int), '\n') == 0);
                assert(t.take(cur@.len() as int) =~= cur@);
                assert(t.skip(cur@.len() + 1int) =~= s@.skip(i + 1));
            }
            if cur.len() > 0 && cur[cur.len() - 1] == '\r' {
                cur.pop();
                assert(cur@ =~= strip_cr(cv));
            }
            let ghost old_pieces = pieces@;
            proof {
                lemma_views_push(old_pieces, cur);
            }
            pieces.push(cur);
            cur = Vec::new();
            proof {
                assert(cur@ + s@.skip(i + 1) =~= s@.skip(i + 1));
                assert(views(old_pieces) + lines(cv + s@.skip(i as int)) =~= views(pieces@) + lines(
                    cur@ + s@.skip(i + 1),
                ));
            }
        } else {
            let ghost old_cur = cur@;
            cur.push(x);
            assert(old_cur + s@.skip(i as int) =~= cur@ + s@.skip(i + 1));
        }
        i = i + 1;
    }
    proof {
        assert(cur@ + s@.skip(i as int) =~= cur@);
        lemma_find_none(cur@, '\n');
    }
    if cur.len() > 0 {
        let ghost old_pieces = pieces@;
        let ghost last = cur@;
        proof {
            lemma_views_push(old_pieces, cur);
        }
        pieces.push(cur);
        assert(lines(last) =~= seq![last]);
        assert(views(pieces@) =~= views(old_pieces) + lines(last));
    } else {
        assert(views(pieces@) + lines(cur@) =~= views(pieces@));
    }
    pieces
}

/// `parts` joined with `sep` between neighbours.
pub fn join_chars(parts: &[Vec<char>], sep: &[char]) -> (r: Vec<char>)
    ensures
        r@ == join(views(parts@), sep@),
{
    let mut r: Vec<char> = Vec::new();
    let mut i: usize = 0;
    while i < parts.len()
        invariant
            i <= parts@.len(),
            r@ == join(views(parts@.take(i as int)), sep@),
        decreases parts.len() - i,
    {
        proof {
            lemma_views_push(parts@.take(i as int), parts@[i as int]);
            assert(parts@.take(i + 1) =~= parts@.take(i as int).push(parts@[i as int]));
            lemma_join_push(views(parts@.take(i as int)), sep@, parts@[i as int]@);
        }
        if i > 0 {
            push_all(&mut r, sep);
        }
        push_all(&mut r, parts[i].as_slice());
        i = i + 1;
    }
    assert(parts@.take(parts@.len() as int) =~= parts@);
    r
}

/// Every `c` replaced by `rep`.
pub fn replace_chars(s: &[char], c: char, rep: &[char]) -> (r: Vec<char>)
    ensures
        r@ == replace(s@, c, rep@),
{
    let mut r: Vec<char> = Vec::new();
    let mut i: usize = 0;
    assert(s@.skip(0) =~= s@);
    while i < s.len()
        invariant
            i <= s@.len(),
            r@ + replace(s@.skip(i as int), c, rep@) == replace(s@, c, rep@),
        decreases s.len() - i,
    {
        assert(s@.skip(i as int).drop_first() =~= s@.skip(i + 1));
        let ghost r0 = r@;
        if s[i] == c {
            push_all(&mut r, rep);
        } else {
            r.push(s[i]);
        }
        assert(r0 + replace(s@.skip(i as int), c, rep@) =~= r@ + replace(s@.skip(i + 1), c, rep@));
        i = i + 1;
    }
    assert(r@ + replace(s@.skip(i as int), c, rep@) =~= r@);
    r
}

/// A string holding exactly these characters, built by `collect` into a
/// `String` (std's `FromIterator<&char>`); the contract claims the string's
/// characters are the slice's, in order.
#[verifier::external_body]
pub(crate) fn string_of(v: &[char]) -> (s: String)
    ensures
        s@ == v@,
{
    v.iter().collect()
}

/// What `str::to_lowercase` returns: full Unicode lower-casing, whose
/// tables are std's own.
pub uninterp spec fn lowercase(s: Seq<char>) -> Seq<char>;

/// What `str::to_uppercase` returns: full Unicode upper-casing.
pub uninterp spec fn uppercase(s: Seq<char>) -> Seq<char>;

/// `str::to_lowercase`: the contract claims only that the result is the
/// name `lowercase` applied to the text, a function of the text alone.
#[verifier::external_body]
fn lowercased(s: &str) -> (r: String)
    ensures
        r@ == lowercase(s@),
{
    s.to_lowercase()
}

/// `str::to_uppercase`: the contract claims only that the result is the
/// name `uppercase` applied to the text, a function of the text alone.
#[verifier::external_body]
fn uppercased(s: &str) -> (r: String)
    ensures
        r@ == uppercase(s@),
{
    s.to_uppercase()
}

/// The characters of the text's Unicode lower case.
pub(crate) fn to_lowercase(s: &str) -> (r: Vec<char>)
    ensures
        r@ == lowercase(s@),
{
    let l = lowercased(s);
    chars_of(l.as_str())
}

/// The characters of the text's Unicode upper case.
pub(crate) fn to_uppercase(s: &str) -> (r: Vec<char>)
    ensures
        r@ == uppercase(s@),
{
    let u = uppercased(s);
    chars_of(u.as_str())
}

} // verus!

verus! {

/// An owned copy of a string slice.
pub fn to_owned_string(s: &str) -> (r: String)
    ensures
        r@ == s@,
{
    let v = chars_of(s);
    string_of(v.as_slice())
}

/// The texts held by a vector of strings.
pub open spec fn string_views(v: Seq<String>) -> Seq<Seq<char>> {
    v.map_values(|x: String| x@)
}

pub proof fn lemma_string_views_push(v: Seq<String>, x: String)
    ensures
        string_views(v.push(x)) == string_views(v).push(x@),
{
    assert(string_views(v.push(x)) =~= string_views(v).push(x@));
}

} // verus!

verus! {

/// The ASCII digit for a value below ten.
pub open spec fn digit_char(d: int) -> char {
    ((48 + d) as u32) as char
}

/// `n` in decimal, as `format!("{}", n)` writes it.
pub open spec fn decimal(n: nat) -> Seq<char>
    decreases n,
{
    if n < 10 {
        seq![digit_char(n as int)]
    } else {
        decimal(n / 10).push(digit_char((n % 10) as int))
    }
}

fn digit_char_of(d: u64) -> (c: char)
    requires
        d < 10,
    ensures
        c == digit_char(d as int),
{
    let b: u8 = d as u8;
    (48u8 + b) as char
}

/// The decimal digits of `n`.
pub fn decimal_chars(n: u64) -> (r: Vec<char>)
    ensures
        r@ == decimal(n as nat),
    decreases n,
{
    if n < 10 {
        let mut v: Vec<char> = Vec::new();
        v.push(digit_char_of(n));
        assert(v@ =~= seq![digit_char(n as int)]);
        v
    } else {
        let mut v = decimal_chars(n / 10);
        v.push(digit_char_of(n % 10));
        v
    }
}

/// The number a run of decimal digits spells.
pub open spec fn dec_value(s: Seq<char>) -> nat
    decreases s.len(),
{
    if s.len() == 0 {
        0
    } else {
        dec_value(s.drop_last()) * 10 + ((s.last() as int - 48) as nat)
    }
}

pub open spec fn all_digits(s: Seq<char>) -> bool {
    forall|i: int| 0 <= i < s.len() ==> is_digit(#[trigger] s[i])
}

/// What `str::parse::<u32>` accepts: an optional `+`, then one or more
/// ASCII digits whose value fits.
pub open spec fn parse_u32_spec(s: Seq<char>) -> Option<u32> {
    let d = if s.len() > 0 && s[0] == '+' { s.drop_first() } else { s };
    if d.len() > 0 && all_digits(d) && dec_value(d) <= u32::MAX {
        Some(dec_value(d) as u32)
    } else {
        None
    }
}

proof fn lemma_dec_value_prefix(s: Seq<char>, k: int)
    requires
        0 <= k <= s.len(),
        all_digits(s),
    ensures
        dec_value(s.take(k)) <= dec_value(s),
    decreases s.len() - k,
{
    if k < s.len() {
        lemma_dec_value_prefix(s, k + 1);
        assert(s.take(k + 1).drop_last() =~= s.take(k));
        assert(is_digit(s[k]));
    }
    assert(s.take(s.len() as int) =~= s);
}

/// A decimal `u32`, as `str::parse::<u32>` reads it.
pub fn parse_u32(s: &[char]) -> (r: Option<u32>)
    ensures
        r == parse_u32_spec(s@),
{
    let start: usize = if s.len() > 0 && s[0] == '+' { 1 } else { 0 };
    let ghost d = if s@.len() > 0 && s@[0] == '+' { s@.drop_first() } else { s@ };
    assert(d =~= s@.skip(start as int));
    if start >= s.len() {
        return None;
    }
    let mut value: u64 = 0;
    let mut i: usize = start;
    while i < s.len()
        invariant
            start <= i <= s@.len(),
            d == s@.skip(start as int),
            d == (if s@.len() > 0 && s@[0] == '+' { s@.drop_first() } else { s@ }),
            forall|j: int| start <= j < i ==> is_digit(#[trigger] s@[j]),
            value == dec_value(d.take(i - start)),
            value <= u32::MAX,
        decreases s.len() - i,
    {
        let c = s[i];
        if !digit(c) {
            assert(!is_digit(d[i - start]));
            return None;
        }
        assert(d.take(i + 1 - start).drop_last() =~= d.take(i - start));
        let dv: u64 = ((c as u32) - 48) as u64;
        let next: u64 = value * 10 + dv;
        if next > 0xffff_ffff {
            proof {
                // Whatever follows, the digits read so far already overflow.
                assert(d.take(i + 1 - start).last() == c);
                assert(dec_value(d.take(i + 1 - start)) == next);
                if all_digits(d) {
                    lemma_dec_value_prefix(d, i + 1 - start);
                }
            }
            return None;
        }
        value = next;
        i = i + 1;
    }
    assert(d.take(i - start) =~= d);
    assert(all_digits(d));
    Some(value as u32)
}

/// `s` in single quotes for a POSIX shell, each `'` inside written `'\''`.
pub open spec fn shell_quoted(s: Seq<char>) -> Seq<char> {
    seq!['\''] + replace(s, '\'', "'\\''"@) + seq!['\'']
}

/// `s` quoted so that `bash` reads it back as one word, unchanged.
pub fn shell_escape(s: &str) -> (r: String)
    ensures
        r@ == shell_quoted(s@),
{
    let v = chars_of(s);
    let q = chars_of("'\\''");
    let body = replace_chars(v.as_slice(), '\'', q.as_slice());
    let mut out: Vec<char> = Vec::new();
    out.push('\'');
    push_all(&mut out, body.as_slice());
    out.push('\'');
    assert(out@ =~= shell_quoted(s@));
    string_of(out.as_slice())
}

/// Whether two string slices hold the same text.
pub fn same_text(a: &str, b: &str) -> (r: bool)
    ensures
        r == (a@ == b@),
{
    let x = chars_of(a);
    let y = chars_of(b);
    eq_chars(x.as_slice(), y.as_slice())
}

} // verus!

verus! {

/// `s` without every leading `c`, as `trim_start_matches`.
pub open spec fn strip_leading(s: Seq<char>, c: char) -> Seq<char>
    decreases s.len(),
{
    if s.len() > 0 && s[0] == c {
        strip_leading(s.drop_first(), c)
    } else {
        s
    }
}

/// `s` without every trailing `c`, as `trim_end_matches`.
pub open spec fn strip_trailing(s: Seq<char>, c: char) -> Seq<char>
    decreases s.len(),
{
    if s.len() > 0 && s.last() == c {
        strip_trailing(s.drop_last(), c)
    } else {
        s
    }
}

/// `s` without its trailing `c`s.
pub fn strip_trailing_chars(s: &[char], c: char) -> (r: Vec<char>)
    ensures
        r@ == strip_trailing(s@, c),
{
    let mut b: usize = s.len();
    assert(s@.take(b as int) =~= s@);
    while b > 0 && s[b - 1] == c
        invariant
            b <= s@.len(),
            strip_trailing(s@, c) == strip_trailing(s@.take(b as int), c),
        decreases b,
    {
        assert(s@.take(b as int).drop_last() =~= s@.take(b - 1));
        b = b - 1;
    }
    slice_of(s, 0, b)
}

} // verus!

verus! {

/// `c` does not occur in `s`.
pub open spec fn free_of(s: Seq<char>, c: char) -> bool {
    forall|i: int| 0 <= i < s.len() ==> s[i] != c
}

/// Text without `c` is one piece.
pub proof fn lemma_split_single(s: Seq<char>, c: char)
    requires
        free_of(s, c),
    ensures
        split(s, c) == seq![s],
{
    lemma_find_none(s, c);
}

/// No piece of a split holds the separator.
pub proof fn lemma_split_pieces_free(s: Seq<char>, c: char)
    ensures
        forall|i: int| 0 <= i < split(s, c).len() ==> free_of(#[trigger] split(s, c)[i], c),
    decreases s.len(),
{
    lemma_find_bounds(s, c);
    let k = find(s, c);
    if k >= 0 {
        lemma_split_pieces_free(s.skip(k + 1), c);
        let rest = split(s.skip(k + 1), c);
        assert forall|i: int| 0 <= i < split(s, c).len() implies free_of(#[trigger] split(s, c)[i], c) by {
            if i > 0 {
                assert(split(s, c)[i] == rest[i - 1]);
            }
        }
    }
}

/// Splitting at a separator between two texts splits each.
pub proof fn lemma_split_concat(a: Seq<char>, b: Seq<char>, c: char)
    ensures
        split(a + seq![c] + b, c) == split(a, c) + split(b, c),
    decreases a.len(),
{
    lemma_find_bounds(a, c);
    let s = a + seq![c] + b;
    let k = find(a, c);
    if k < 0 {
        lemma_find_concat(a, seq![c] + b, c);
        assert(a + (seq![c] + b) =~= s);
        lemma_find_at(seq![c] + b, c, 0);
        assert(find(s, c) == a.len());
        assert(s.take(a.len() as int) =~= a);
        assert(s.skip(a.len() as int + 1) =~= b);
        lemma_find_none(a, c);
    } else {
        lemma_find_at(s, c, k);
        assert(s.take(k) =~= a.take(k));
        assert(s.skip(k + 1) =~= a.skip(k + 1) + seq![c] + b);
        lemma_split_concat(a.skip(k + 1), b, c);
        assert(split(s, c) =~= seq![a.take(k)] + (split(a.skip(k + 1), c) + split(b, c)));
    }
}

/// Text without `c` added at the end lengthens the last piece.
pub proof fn lemma_split_append(x: Seq<char>, r: Seq<char>, c: char)
    requires
        free_of(r, c),
    ensures
        split(x + r, c).len() == split(x, c).len(),
        split(x + r, c) == split(x, c).update(split(x, c).len() - 1, split(x, c).last() + r),
    decreases x.len(),
{
    lemma_split_nonempty(x, c);
    lemma_find_bounds(x, c);
    let k = find(x, c);
    if k < 0 {
        assert(free_of(x + r, c));
        lemma_split_single(x + r, c);
        lemma_split_single(x, c);
        assert(split(x + r, c) =~= split(x, c).update(0, x + r));
    } else {
        lemma_find_at(x + r, c, k);
        assert((x + r).take(k) =~= x.take(k));
        assert((x + r).skip(k + 1) =~= x.skip(k + 1) + r);
        lemma_split_append(x.skip(k + 1), r, c);
        lemma_split_nonempty(x.skip(k + 1), c);
        let tail = split(x.skip(k + 1), c);
        assert(split(x + r, c) =~= split(x, c).update(split(x, c).len() - 1, split(x, c).last() + r)) by {
            assert(split(x, c) == seq![x.take(k)] + tail);
            assert(split(x + r, c) == seq![x.take(k)] + tail.update(tail.len() - 1, tail.last() + r));
        }
    }
}

/// Lines joined with `r` and then `c` split back at `c` into the lines,
/// each but the last still carrying `r`.
pub proof fn lemma_split_join(ls: Seq<Seq<char>>, r: Seq<char>, c: char)
    requires
        ls.len() >= 1,
        forall|i: int| 0 <= i < ls.len() ==> free_of(#[trigger] ls[i], c),
        free_of(r, c),
    ensures
        split(join(ls, r + seq![c]), c) == Seq::new(
            ls.len(),
            |i: int|
                if i < ls.len() - 1 {
                    ls[i] + r
                } else {
                    ls[i]
                },
        ),
    decreases ls.len(),
{
    let sep = r + seq![c];
    if ls.len() == 1 {
        lemma_split_single(ls[0], c);
        assert(split(join(ls, sep), c) =~= Seq::new(
            ls.len(),
            |i: int|
                if i < ls.len() - 1 {
                    ls[i] + r
                } else {
                    ls[i]
                },
        ));
    } else {
        let p = ls.drop_last();
        assert forall|i: int| 0 <= i < p.len() implies free_of(#[trigger] p[i], c) by {
            assert(p[i] == ls[i]);
        }
        lemma_split_join(p, r, c);
        assert(join(ls, sep) == join(p, sep) + sep + ls.last());
        assert(join(p, sep) + sep + ls.last() =~= (join(p, sep) + r) + seq![c] + ls.last());
        lemma_split_concat(join(p, sep) + r, ls.last(), c);
        lemma_split_append(join(p, sep), r, c);
        lemma_split_single(ls.last(), c);
        assert(split(join(ls, sep), c) =~= Seq::new(
            ls.len(),
            |i: int|
                if i < ls.len() - 1 {
                    ls[i] + r
                } else {
                    ls[i]
                },
        ));
    }
}

/// Without a piece that ends in `\r` before a line break, the text holds no
/// `\r\n`.
pub proof fn lemma_no_crlf(s: Seq<char>)
    requires
        forall|i: int|
            0 <= i < split(s, '\n').len() - 1 ==> (#[trigger] split(s, '\n')[i]).len() == 0 || split(
                s,
                '\n',
            )[i].last() != '\r',
    ensures
        !has_sub(s, "\r\n"@),
    decreases s.len(),
{
    reveal_strlit("\r\n");
    lemma_find_bounds(s, '\n');
    let k = find(s, '\n');
    if has_sub(s, "\r\n"@) {
        let i = choose|i: int| occurs_at(s, "\r\n"@, i);
        assert(s.subrange(i, i + 2)[0] == s[i] && s.subrange(i, i + 2)[1] == s[i + 1]);
        assert(s[i] == '\r' && s[i + 1] == '\n');
        if k < 0 {
        } else if i + 1 == k {
            lemma_split_nonempty(s.skip(k + 1), '\n');
            assert(split(s, '\n')[0] == s.take(k));
        } else {
            assert(i > k);
            let t = s.skip(k + 1);
            lemma_split_nonempty(t, '\n');
            assert forall|j: int| 0 <= j < split(t, '\n').len() - 1 implies (#[trigger] split(t, '\n')[j]).len()
                == 0 || split(t, '\n')[j].last() != '\r' by {
                assert(split(t, '\n')[j] == split(s, '\n')[j + 1]);
            }
            lemma_no_crlf(t);
            assert(t.subrange(i - k - 1, i - k + 1) =~= s.subrange(i, i + 2));
            assert(occurs_at(t, "\r\n"@, i - k - 1));
        }
    }
}

/// `split` always yields at least one piece.
pub proof fn lemma_split_nonempty(s: Seq<char>, c: char)
    ensures
        split(s, c).len() >= 1,
    decreases s.len(),
{
    lemma_find_bounds(s, c);
    let k = find(s, c);
    if k >= 0 {
        lemma_split_nonempty(s.skip(k + 1), c);
    }
}

} // verus!

verus! {

/// What `str::parse::<u64>` accepts: an optional `+`, then one or more
/// ASCII digits whose value fits.
pub open spec fn parse_u64_spec(s: Seq<char>) -> Option<u64> {
    let d = if s.len() > 0 && s[0] == '+' { s.drop_first() } else { s };
    if d.len() > 0 && all_digits(d) && dec_value(d) <= u64::MAX {
        Some(dec_value(d) as u64)
    } else {
        None
    }
}

/// A decimal `u64`, as `str::parse::<u64>` reads it.
pub fn parse_u64(s: &[char]) -> (r: Option<u64>)
    ensures
        r == parse_u64_spec(s@),
{
    let start: usize = if s.len() > 0 && s[0] == '+' { 1 } else { 0 };
    let ghost d = if s@.len() > 0 && s@[0] == '+' { s@.drop_first() } else { s@ };
    assert(d =~= s@.skip(start as int));
    if start >= s.len() {
        return None;
    }
    let mut value: u128 = 0;
    let mut i: usize = start;
    while i < s.len()
        invariant
            start <= i <= s@.len(),
            d == s@.skip(start as int),
            d == (if s@.len() > 0 && s@[0] == '+' { s@.drop_first() } else { s@ }),
            forall|j: int| start <= j < i ==> is_digit(#[trigger] s@[j]),
            value == dec_value(d.take(i - start)),
            value <= u64::MAX,
        decreases s.len() - i,
    {
        let c = s[i];
        if !digit(c) {
            assert(!is_digit(d[i - start]));
            return None;
        }
        assert(d.take(i + 1 - start).drop_last() =~= d.take(i - start));
        let dv: u128 = ((c as u32) - 48) as u128;
        let next: u128 = value * 10 + dv;
        if next > 0xffff_ffff_ffff_ffff {
            proof {
                assert(d.take(i + 1 - start).last() == c);
                assert(dec_value(d.take(i + 1 - start)) == next);
                if all_digits(d) {
                    lemma_dec_value_prefix(d, i + 1 - start);
                }
            }
            return None;
        }
        value = next;
        i = i + 1;
    }
    assert(d.take(i - start) =~= d);
    assert(all_digits(d));
    Some(value as u64)
}

/// What `String::from_utf8_lossy` makes of some bytes: the text they
/// encode, each invalid sequence replaced by U+FFFD.
pub uninterp spec fn utf8_lossy(b: Seq<u8>) -> Seq<char>;

/// Bytes read as UTF-8 text by `String::from_utf8_lossy`; the contract
/// claims only that the text is the name `utf8_lossy` of the bytes.
#[verifier::external_body]
pub(crate) fn text_of_bytes(b: &[u8]) -> (r: String)
    ensures
        r@ == utf8_lossy(b@),
{
    String::from_utf8_lossy(b).into_owned()
}

} // verus!

verus! {

/// Where `s` holds `c`, what follows it does not move the first one.
pub proof fn lemma_find_prefix(s: Seq<char>, t: Seq<char>, c: char)
    requires
        find(s, c) >= 0,
    ensures
        find(s + t, c) == find(s, c),
    decreases s.len(),
{
    if s[0] != c {
        assert((s + t).drop_first() =~= s.drop_first() + t);
        lemma_find_prefix(s.drop_first(), t, c);
    }
}

/// A text of whole lines with one more line after it has that line as its
/// last line.
pub proof fn lemma_lines_append_line(m: Seq<char>, l: Seq<char>)
    requires
        m.len() == 0 || m.last() == '\n',
        free_of(l, '\n'),
    ensures
        lines(m + l + seq!['\n']) == lines(m).push(strip_cr(l)),
    decreases m.len(),
{
    let x = l + seq!['\n'];
    assert(m + l + seq!['\n'] =~= m + x);
    lemma_find_concat(l, seq!['\n'], '\n');
    assert(find(seq!['\n'], '\n') == 0);
    if m.len() == 0 {
        assert(m + x =~= x);
        assert(x.take(l.len() as int) =~= l);
        assert(x.skip(l.len() as int + 1) =~= Seq::<char>::empty());
        assert(lines(x) == seq![strip_cr(l)] + lines(Seq::<char>::empty()));
        assert(lines(x) =~= lines(m).push(strip_cr(l)));
    } else {
        lemma_find_bounds(m, '\n');
        let k = find(m, '\n');
        assert(k >= 0) by {
            if k < 0 {
                assert(m[m.len() - 1] != '\n');
            }
        }
        lemma_find_prefix(m, x, '\n');
        let s = m + x;
        let rest = m.skip(k + 1);
        assert(s.take(k) =~= m.take(k));
        assert(s.skip(k + 1) =~= rest + x);
        if rest.len() > 0 {
            assert(rest.last() == m.last());
        }
        lemma_lines_append_line(rest, l);
        assert(rest + l + seq!['\n'] =~= rest + x);
        assert(lines(s) == seq![strip_cr(m.take(k))] + lines(rest + x));
        assert(lines(m) == seq![strip_cr(m.take(k))] + lines(rest));
        assert(lines(s) =~= lines(m).push(strip_cr(l)));
    }
}

/// Leading whitespace of a text with more after it.
pub proof fn lemma_trim_start_concat(y: Seq<char>, z: Seq<char>)
    ensures
        trim_start(y + z) == (if trim_start(y).len() > 0 {
            trim_start(y) + z
        } else {
            trim_start(z)
        }),
    decreases y.len(),
{
    if y.len() == 0 {
        assert(y + z =~= z);
    } else if is_ws(y[0]) {
        assert((y + z).drop_first() =~= y.drop_first() + z);
        lemma_trim_start_concat(y.drop_first(), z);
    } else {
        assert((y + z)[0] == y[0]);
    }
}

/// Trimming does not see the carriage return that ends a line.
pub proof fn lemma_trim_strip_cr(x: Seq<char>)
    ensures
        trim(strip_cr(x)) == trim(x),
{
    if x.len() > 0 && x.last() == '\r' {
        let y = x.drop_last();
        assert(x =~= y + seq!['\r']);
        lemma_trim_start_concat(y, seq!['\r']);
        assert(is_ws('\r'));
        if trim_start(y).len() > 0 {
            let u = trim_start(y) + seq!['\r'];
            assert(u.drop_last() =~= trim_start(y));
            assert(trim_start(x) == u);
            assert(u.last() == '\r');
            assert(trim_end(u) == trim_end(u.drop_last()));
        } else {
            assert(seq!['\r'].drop_first() =~= Seq::<char>::empty());
            assert(trim_start(seq!['\r']) == trim_start(Seq::<char>::empty()));
            assert(trim_start(x).len() == 0);
            assert(trim(x).len() == 0);
            assert(trim(y).len() == 0);
        }
    }
}

} // verus!

verus! {

/// What `trim_start` leaves is a suffix of the text that starts with no
/// whitespace.
pub proof fn lemma_trim_start_shape(s: Seq<char>)
    ensures
        trim_start(s).len() <= s.len(),
        trim_start(s) == s.skip(s.len() - trim_start(s).len()),
        trim_start(s).len() == 0 || !is_ws(trim_start(s)[0]),
    decreases s.len(),
{
    if s.len() > 0 && is_ws(s[0]) {
        lemma_trim_start_shape(s.drop_first());
        assert(s.drop_first().skip(s.drop_first().len() - trim_start(s).len()) =~= s.skip(
            s.len() - trim_start(s).len(),
        ));
    } else {
        assert(s.skip(0) =~= s);
    }
}

/// What `trim_end` leaves is a prefix of the text that ends with no
/// whitespace.
pub proof fn lemma_trim_end_shape(s: Seq<char>)
    ensures
        trim_end(s).len() <= s.len(),
        trim_end(s) == s.take(trim_end(s).len() as int),
        trim_end(s).len() == 0 || !is_ws(trim_end(s).last()),
    decreases s.len(),
{
    if s.len() > 0 && is_ws(s.last()) {
        lemma_trim_end_shape(s.drop_last());
        assert(s.drop_last().take(trim_end(s).len() as int) =~= s.take(trim_end(s).len() as int));
    } else {
        assert(s.take(s.len() as int) =~= s);
    }
}

/// Trimming twice trims once, and keeps nothing the text did not hold.
pub proof fn lemma_trim_idempotent(s: Seq<char>, c: char)
    ensures
        trim(trim(s)) == trim(s),
        free_of(s, c) ==> free_of(trim(s), c),
{
    let y = trim_start(s);
    lemma_trim_start_shape(s);
    lemma_trim_end_shape(y);
    let t = trim_end(y);
    assert(trim(s) == t);
    if t.len() > 0 {
        assert(t[0] == y[0]);
    }
    assert(trim_start(t) == t);
    lemma_trim_end_shape(t);
    if t.len() > 0 {
        assert(trim_end(t) == t);
    }
    if free_of(s, c) {
        assert forall|i: int| 0 <= i < t.len() implies t[i] != c by {
            assert(t[i] == y[i]);
            assert(y[i] == s[i + (s.len() - y.len())]);
        }
    }
}

} // verus!
