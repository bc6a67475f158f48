//! Power-plan GUIDs in the form `powercfg /list` prints them, read back
//! from a marker file that may have been edited by hand.

use vstd::prelude::*;

use crate::text::{
    chars_of, is_hex, split, split_chars, string_of, strip_leading, strip_trailing, trim, trimmed, views,
};

verus! {

/// Windows' built-in "High performance" plan (`GUID_MIN_POWER_SAVINGS`).
pub const HIGH_PERFORMANCE_PLAN: u128 = 0x8c5e7fda_e8bf_4a96_9a85_a6e23a8c635cu128;

/// Hex digit `k` of `g`, counting from the most significant (0 to 31).
pub open spec fn nibble(g: u128, k: int) -> u128 {
    (g >> ((124 - 4 * k) as u128)) & 0xf
}

/// The lower-case hex digit for a value below 16.
pub open spec fn hex_char(d: int) -> char {
    if d < 10 {
        ((48 + d) as u32) as char
    } else {
        ((87 + d) as u32) as char
    }
}

/// The 32 lower-case hex digits of `g`, most significant first.
pub open spec fn hex_digits(g: u128) -> Seq<char> {
    Seq::new(32, |k: int| hex_char(nibble(g, k) as int))
}

/// `g` as `8-4-4-4-12` lower-case hex digit groups.
pub open spec fn guid_text(g: u128) -> Seq<char> {
    let d = hex_digits(g);
    d.subrange(0, 8) + seq!['-'] + d.subrange(8, 12) + seq!['-'] + d.subrange(12, 16) + seq!['-']
        + d.subrange(16, 20) + seq!['-'] + d.subrange(20, 32)
}

/// The value of one hex digit, either case.
pub open spec fn digit_value(c: char) -> int {
    if '0' <= c && c <= '9' {
        c as int - 48
    } else if 'a' <= c && c <= 'f' {
        c as int - 87
    } else {
        c as int - 55
    }
}

/// The number a run of hex digits spells.
pub open spec fn hex_value(s: Seq<char>) -> int
    decreases s.len(),
{
    if s.len() == 0 {
        0
    } else {
        hex_value(s.drop_last()) * 16 + digit_value(s.last())
    }
}

/// The GUID a text names: surrounding whitespace and braces dropped, then
/// nothing but hex digits and dashes in five groups of 8, 4, 4, 4 and 12
/// digits.
pub open spec fn parse_guid_spec(text: Seq<char>) -> Option<u128> {
    let t = strip_trailing(strip_leading(trim(text), '{'), '}');
    let p = split(t, '-');
    if !(forall|i: int| 0 <= i < t.len() ==> is_hex(#[trigger] t[i]) || t[i] == '-') {
        None
    } else if p.len() == 5 && p[0].len() == 8 && p[1].len() == 4 && p[2].len() == 4 && p[3].len() == 4
        && p[4].len() == 12 {
        Some(hex_value(p[0] + p[1] + p[2] + p[3] + p[4]) as u128)
    } else {
        None
    }
}

fn hex_char_of(d: u128) -> (c: char)
    requires
        d < 16,
    ensures
        c == hex_char(d as int),
{
    let b: u8 = d as u8;
    if b < 10 {
        (48u8 + b) as char
    } else {
        (87u8 + b) as char
    }
}

/// A power-plan GUID the way `powercfg /list` prints it.
pub fn format_guid(guid: u128) -> (r: String)
    ensures
        r@ == guid_text(guid),
{
    let mut out: Vec<char> = Vec::new();
    let mut k: u32 = 0;
    let ghost d = hex_digits(guid);
    while k < 32
        invariant
            k <= 32,
            d == hex_digits(guid),
            out@ == (if k <= 8 {
                d.subrange(0, k as int)
            } else if k <= 12 {
                d.subrange(0, 8) + seq!['-'] + d.subrange(8, k as int)
            } else if k <= 16 {
                d.subrange(0, 8) + seq!['-'] + d.subrange(8, 12) + seq!['-'] + d.subrange(12, k as int)
            } else if k <= 20 {
                d.subrange(0, 8) + seq!['-'] + d.subrange(8, 12) + seq!['-'] + d.subrange(12, 16) + seq!['-']
                    + d.subrange(16, k as int)
            } else {
                d.subrange(0, 8) + seq!['-'] + d.subrange(8, 12) + seq!['-'] + d.subrange(12, 16) + seq!['-']
                    + d.subrange(16, 20) + seq!['-'] + d.subrange(20, k as int)
            }),
        decreases 32 - k,
    {
        let ghost before = out@;
        if k == 8 || k == 12 || k == 16 || k == 20 {
            out.push('-');
        }
        let shift: u32 = 124 - 4 * k;
        let n: u128 = (guid >> shift) & 0xf;
        assert(n < 16) by (bit_vector)
            requires
                n == (guid >> shift) & 0xf,
        ;
        assert(n == nibble(guid, k as int));
        out.push(hex_char_of(n));
        assert(d[k as int] == hex_char(nibble(guid, k as int) as int));
        k = k + 1;
        assert(out@ =~= (if k <= 8 {
            d.subrange(0, k as int)
        } else if k <= 12 {
            d.subrange(0, 8) + seq!['-'] + d.subrange(8, k as int)
        } else if k <= 16 {
            d.subrange(0, 8) + seq!['-'] + d.subrange(8, 12) + seq!['-'] + d.subrange(12, k as int)
        } else if k <= 20 {
            d.subrange(0, 8) + seq!['-'] + d.subrange(8, 12) + seq!['-'] + d.subrange(12, 16) + seq!['-']
                + d.subrange(16, k as int)
        } else {
            d.subrange(0, 8) + seq!['-'] + d.subrange(8, 12) + seq!['-'] + d.subrange(12, 16) + seq!['-']
                + d.subrange(16, 20) + seq!['-'] + d.subrange(20, k as int)
        }));
    }
    string_of(out.as_slice())
}

pub open spec fn p16(n: nat) -> int
    decreases n,
{
    if n == 0 {
        1
    } else {
        16 * p16((n - 1) as nat)
    }
}

proof fn lemma_p16_mono(a: nat, b: nat)
    requires
        a <= b,
    ensures
        1 <= p16(a) <= p16(b),
    decreases b,
{
    if b > 0 {
        if a < b {
            lemma_p16_mono(a, (b - 1) as nat);
        } else {
            lemma_p16_mono((b - 1) as nat, (b - 1) as nat);
        }
    }
}

fn hex(c: char) -> (b: bool)
    ensures
        b == is_hex(c),
{
    ('0' <= c && c <= '9') || ('a' <= c && c <= 'f') || ('A' <= c && c <= 'F')
}

fn digit_of(c: char) -> (d: u128)
    requires
        is_hex(c),
    ensures
        d == digit_value(c),
        d < 16,
{
    let b: u32 = c as u32;
    if '0' <= c && c <= '9' {
        (b - 48) as u128
    } else if 'a' <= c && c <= 'f' {
        (b - 87) as u128
    } else {
        (b - 55) as u128
    }
}

/// Read a GUID back from `powercfg`-style text: surrounding whitespace and
/// braces are tolerated, anything else is refused.
pub fn parse_guid(text: &str) -> (r: Option<u128>)
    ensures
        r == parse_guid_spec(text@),
{
    let v = chars_of(text);
    let t0 = trimmed(v.as_slice());
    let ghost s0 = t0@;
    // Leading braces.
    let mut a: usize = 0;
    assert(s0.skip(0) =~= s0);
    while a < t0.len() && t0[a] == '{'
        invariant
            a <= s0.len(),
            s0 == t0@,
            strip_leading(s0, '{') == strip_leading(s0.skip(a as int), '{'),
        decreases t0.len() - a,
    {
        assert(s0.skip(a as int).drop_first() =~= s0.skip(a + 1));
        a = a + 1;
    }
    let ghost s1 = s0.skip(a as int);
    assert(strip_leading(s0, '{') == s1);
    let mut b: usize = t0.len();
    assert(s1.take(b - a) =~= s1);
    while b > a && t0[b - 1] == '}'
        invariant
            a <= b <= s0.len(),
            s0 == t0@,
            s1 == s0.skip(a as int),
            strip_trailing(s1, '}') == strip_trailing(s1.take(b - a), '}'),
        decreases b,
    {
        assert(s1.take(b - a).drop_last() =~= s1.take(b - 1 - a));
        b = b - 1;
    }
    assert(s1.take(b - a) =~= s0.subrange(a as int, b as int));
    let t = crate::text::slice_of(t0.as_slice(), a, b);
    assert(t@ == strip_trailing(strip_leading(trim(text@), '{'), '}'));
    // Only hex digits and dashes.
    let mut i: usize = 0;
    while i < t.len()
        invariant
            i <= t@.len(),
            t@ == strip_trailing(strip_leading(trim(text@), '{'), '}'),
            forall|j: int| 0 <= j < i ==> is_hex(#[trigger] t@[j]) || t@[j] == '-',
        decreases t.len() - i,
    {
        if !(hex(t[i]) || t[i] == '-') {
            assert(!(is_hex(t@[i as int]) || t@[i as int] == '-'));
            return None;
        }
        i = i + 1;
    }
    let parts = split_chars(t.as_slice(), '-');
    assert(views(parts@) == split(t@, '-'));
    assert forall|i: int| 0 <= i < parts@.len() implies views(parts@)[i] == #[trigger] parts@[i]@ by {}
    if parts.len() != 5 || parts[0].len() != 8 || parts[1].len() != 4 || parts[2].len() != 4
        || parts[3].len() != 4 || parts[4].len() != 12 {
        return None;
    }
    let mut ds: Vec<char> = Vec::new();
    let mut p: usize = 0;
    while p < 5
        invariant
            p <= 5,
            parts@.len() == 5,
            ds@ == (if p == 0 {
                seq![]
            } else if p == 1 {
                parts@[0]@
            } else if p == 2 {
                parts@[0]@ + parts@[1]@
            } else if p == 3 {
                parts@[0]@ + parts@[1]@ + parts@[2]@
            } else if p == 4 {
                parts@[0]@ + parts@[1]@ + parts@[2]@ + parts@[3]@
            } else {
                parts@[0]@ + parts@[1]@ + parts@[2]@ + parts@[3]@ + parts@[4]@
            }),
        decreases 5 - p,
    {
        crate::text::push_all(&mut ds, parts[p].as_slice());
        p = p + 1;
    }
    proof {
        assert(views(parts@)[0] == parts@[0]@);
        assert(views(parts@)[1] == parts@[1]@);
        assert(views(parts@)[2] == parts@[2]@);
        assert(views(parts@)[3] == parts@[3]@);
        assert(views(parts@)[4] == parts@[4]@);
        assert(ds@.len() == 32);
        // Every digit of the groups is a hex digit of `t`.
        assert forall|j: int| 0 <= j < ds@.len() implies is_hex(#[trigger] ds@[j]) by {
            lemma_group_digits(t@, views(parts@), ds@, j);
        }
        reveal_with_fuel(p16, 33);
        lemma_p16_mono(0, 32);
    }
    let mut value: u128 = 0;
    let mut k: usize = 0;
    while k < 32
        invariant
            k <= 32,
            ds@.len() == 32,
            forall|j: int| 0 <= j < ds@.len() ==> is_hex(#[trigger] ds@[j]),
            value == hex_value(ds@.take(k as int)),
            value < p16(k as nat),
            p16(32) == 0x1_0000_0000_0000_0000_0000_0000_0000_0000int,
        decreases 32 - k,
    {
        let d = digit_of(ds[k]);
        proof {
            lemma_p16_mono((k + 1) as nat, 32);
            assert(ds@.take(k + 1).drop_last() =~= ds@.take(k as int));
            assert(ds@.take(k + 1).last() == ds@[k as int]);
            assert(value * 16 + d < p16((k + 1) as nat)) by (nonlinear_arith)
                requires
                    value < p16(k as nat),
                    d < 16,
                    p16((k + 1) as nat) == 16 * p16(k as nat),
            ;
        }
        value = value * 16 + d;
        k = k + 1;
    }
    assert(ds@.take(32) =~= ds@);
    Some(value)
}

/// Each character of the concatenated groups comes from `t`, which holds
/// nothing but hex digits and dashes, and the groups hold no dash.
proof fn lemma_group_digits(t: Seq<char>, p: Seq<Seq<char>>, ds: Seq<char>, j: int)
    requires
        p == split(t, '-'),
        p.len() == 5,
        ds == p[0] + p[1] + p[2] + p[3] + p[4],
        forall|i: int| 0 <= i < t.len() ==> is_hex(#[trigger] t[i]) || t[i] == '-',
        0 <= j < ds.len(),
    ensures
        is_hex(ds[j]),
{
    lemma_split_pieces(t, '-');
    let a = p[0].len() as int;
    let b = a + p[1].len();
    let c = b + p[2].len();
    let d = c + p[3].len();
    if j < a {
        assert(ds[j] == p[0][j]);
    } else if j < b {
        assert(ds[j] == p[1][j - a]);
    } else if j < c {
        assert(ds[j] == p[2][j - b]);
    } else if j < d {
        assert(ds[j] == p[3][j - c]);
    } else {
        assert(ds[j] == p[4][j - d]);
    }
}

/// Every piece `split` produces holds no separator, and each of its
/// characters occurs in the text.
proof fn lemma_split_pieces(t: Seq<char>, c: char)
    ensures
        forall|k: int, j: int|
            0 <= k < split(t, c).len() && 0 <= j < split(t, c)[k].len() ==> split(t, c)[k][j] != c
                && t.contains(#[trigger] split(t, c)[k][j]),
    decreases t.len(),
{
    crate::text::lemma_find_bounds(t, c);
    let f = crate::text::find(t, c);
    if f >= 0 {
        lemma_split_pieces(t.skip(f + 1), c);
        assert forall|k: int, j: int|
            0 <= k < split(t, c).len() && 0 <= j < split(t, c)[k].len() implies split(t, c)[k][j] != c
                && t.contains(#[trigger] split(t, c)[k][j]) by {
            if k == 0 {
                assert(split(t, c)[0][j] == t[j]);
            } else {
                let x = split(t, c)[k][j];
                assert(split(t, c)[k] == split(t.skip(f + 1), c)[k - 1]);
                assert(t.skip(f + 1).contains(x));
                let w = choose|w: int| 0 <= w < t.skip(f + 1).len() && #[trigger] t.skip(f + 1)[w] == x;
                assert(t[f + 1 + w] == x);
            }
        }
    } else {
        assert forall|k: int, j: int|
            0 <= k < split(t, c).len() && 0 <= j < split(t, c)[k].len() implies split(t, c)[k][j] != c
                && t.contains(#[trigger] split(t, c)[k][j]) by {
            assert(split(t, c)[k][j] == t[j]);
        }
    }
}

} // verus!
verus! {

proof fn lemma_low_nibble(x: u128)
    by (bit_vector)
    ensures
        x & 0xf < 16,
{
}

proof fn lemma_nibble_step(g: u128, s: u128)
    by (bit_vector)
    requires
        s <= 120,
    ensures
        (g >> s) == (g >> ((s + 4) as u128)) * 16 + ((g >> s) & 0xf),
{
}

proof fn lemma_shift_ends(g: u128)
    by (bit_vector)
    ensures
        (g >> 124u128) & 0xf == g >> 124u128,
        g >> 0u128 == g,
{
}

proof fn lemma_hex_char(n: int)
    requires
        0 <= n < 16,
    ensures
        digit_value(hex_char(n)) == n,
        is_hex(hex_char(n)),
        !crate::text::is_ws(hex_char(n)),
        hex_char(n) != '-',
        hex_char(n) != '{',
        hex_char(n) != '}',
{
}

/// The first `k` hex digits of `g` spell `g` without its last `32 - k` digits.
proof fn lemma_hex_prefix(g: u128, k: int)
    requires
        1 <= k <= 32,
    ensures
        hex_value(hex_digits(g).take(k)) == (g >> ((128 - 4 * k) as u128)),
    decreases k,
{
    let d = hex_digits(g);
    lemma_low_nibble(g >> ((124 - 4 * (k - 1)) as u128));
    lemma_hex_char(nibble(g, k - 1) as int);
    assert(d.take(k).drop_last() =~= d.take(k - 1));
    let sh: u128 = (128 - 4 * k) as u128;
    assert(nibble(g, k - 1) == (g >> sh) & 0xf);
    assert(d.take(k).last() == hex_char(nibble(g, k - 1) as int));
    assert(hex_value(d.take(k)) == hex_value(d.take(k - 1)) * 16 + nibble(g, k - 1));
    if k == 1 {
        lemma_shift_ends(g);
        assert(d.take(0) =~= Seq::<char>::empty());
    } else {
        lemma_hex_prefix(g, k - 1);
        lemma_nibble_step(g, sh);
        assert(((sh + 4) as u128) == ((128 - 4 * (k - 1)) as u128));
    }
}

/// Splitting at `c` peels off a leading piece that holds no `c`.
proof fn lemma_split_step(a: Seq<char>, b: Seq<char>, c: char)
    requires
        forall|j: int| 0 <= j < a.len() ==> a[j] != c,
    ensures
        split(a + seq![c] + b, c) == seq![a] + split(b, c),
{
    let s = a + seq![c] + b;
    crate::text::lemma_find_concat(a, seq![c] + b, c);
    assert(a + (seq![c] + b) =~= s);
    assert((seq![c] + b)[0] == c);
    assert(s.take(a.len() as int) =~= a);
    assert(s.skip(a.len() as int + 1) =~= b);
}

/// A GUID written by `format_guid` reads back as the same GUID.
pub proof fn lemma_guid_round_trip(g: u128)
    ensures
        parse_guid_spec(guid_text(g)) == Some(g),
{
    let d = hex_digits(g);
    let s = guid_text(g);
    assert forall|k: int| 0 <= k < 32 implies is_hex(#[trigger] d[k]) && d[k] != '-' && !crate::text::is_ws(
        d[k],
    ) && d[k] != '{' && d[k] != '}' by {
        lemma_low_nibble(g >> ((124 - 4 * k) as u128));
        lemma_hex_char(nibble(g, k) as int);
    }
    let a0 = d.subrange(0, 8);
    let a1 = d.subrange(8, 12);
    let a2 = d.subrange(12, 16);
    let a3 = d.subrange(16, 20);
    let a4 = d.subrange(20, 32);
    assert(s.len() == 36);
    assert(s[0] == d[0]);
    assert(s[35] == d[31]);
    assert(trim(s) == s);
    assert(strip_leading(s, '{') == s);
    assert(strip_trailing(s, '}') == s);
    assert forall|i: int| 0 <= i < s.len() implies is_hex(#[trigger] s[i]) || s[i] == '-' by {
        if i < 8 {
            assert(s[i] == d[i]);
        } else if 8 < i < 13 {
            assert(s[i] == d[i - 1]);
        } else if 13 < i < 18 {
            assert(s[i] == d[i - 2]);
        } else if 18 < i < 23 {
            assert(s[i] == d[i - 3]);
        } else if 23 < i {
            assert(s[i] == d[i - 4]);
        }
    }
    let r3 = a3 + seq!['-'] + a4;
    let r2 = a2 + seq!['-'] + r3;
    let r1 = a1 + seq!['-'] + r2;
    assert(s =~= a0 + seq!['-'] + r1);
    lemma_split_step(a0, r1, '-');
    lemma_split_step(a1, r2, '-');
    lemma_split_step(a2, r3, '-');
    lemma_split_step(a3, a4, '-');
    crate::text::lemma_find_none(a4, '-');
    let p = split(s, '-');
    assert(p =~= seq![a0, a1, a2, a3, a4]);
    assert(p[0] + p[1] + p[2] + p[3] + p[4] =~= d);
    lemma_hex_prefix(g, 32);
    assert(d.take(32) =~= d);
    lemma_shift_ends(g);
}

} // verus!

verus! {

/// A Win32 `GUID` as one number: `data1`, `data2`, `data3`, then the eight
/// bytes of `data4` read big-endian, most significant first.
pub open spec fn guid_value(data1: u32, data2: u16, data3: u16, data4: Seq<u8>) -> int {
    data1 * 0x1_0000_0000_0000_0000_0000_0000int + data2 * 0x1_0000_0000_0000_0000_0000int + data3
        * 0x1_0000_0000_0000_0000int + be_value(data4)
}

/// Bytes read as a big-endian number.
pub open spec fn be_value(b: Seq<u8>) -> int
    decreases b.len(),
{
    if b.len() == 0 {
        0
    } else {
        be_value(b.drop_last()) * 256 + b.last()
    }
}

proof fn lemma_be_bound(b: Seq<u8>)
    ensures
        0 <= be_value(b) < p16((2 * b.len()) as nat),
    decreases b.len(),
{
    if b.len() > 0 {
        lemma_be_bound(b.drop_last());
        assert(p16((2 * b.len()) as nat) == 256 * p16((2 * (b.len() - 1)) as nat)) by {
            reveal_with_fuel(p16, 3);
        }
    }
}

pub fn guid_to_u128(data1: u32, data2: u16, data3: u16, data4: [u8; 8]) -> (r: u128)
    ensures
        r == guid_value(data1, data2, data3, data4@),
{
    let mut low: u128 = 0;
    let mut i: usize = 0;
    proof {
        reveal_with_fuel(p16, 17);
    }
    while i < 8
        invariant
            i <= 8,
            data4@.len() == 8,
            low == be_value(data4@.take(i as int)),
            p16(16) == 0x1_0000_0000_0000_0000int,
            p16(14) == 0x100_0000_0000_0000int,
        decreases 8 - i,
    {
        proof {
            lemma_be_bound(data4@.take(i as int));
            lemma_p16_mono((2 * i) as nat, 14);
            assert(data4@.take(i + 1).drop_last() =~= data4@.take(i as int));
        }
        assert(low * 256 + data4[i as int] < 0x1_0000_0000_0000_0000) by (nonlinear_arith)
            requires
                low < p16((2 * i) as nat),
                p16((2 * i) as nat) <= p16(14),
                p16(14) == 0x100_0000_0000_0000int,
                data4[i as int] < 256,
        ;
        low = low * 256 + data4[i] as u128;
        i = i + 1;
    }
    assert(data4@.take(8) =~= data4@);
    proof {
        lemma_be_bound(data4@);
    }
    let hi: u128 = (data1 as u128) * 0x1_0000_0000_0000_0000_0000_0000;
    let mid: u128 = (data2 as u128) * 0x1_0000_0000_0000_0000_0000;
    let lo: u128 = (data3 as u128) * 0x1_0000_0000_0000_0000;
    assert(hi + mid + lo + low < 0x1_0000_0000_0000_0000_0000_0000_0000_0000) by (nonlinear_arith)
        requires
            hi == data1 * 0x1_0000_0000_0000_0000_0000_0000int,
            mid == data2 * 0x1_0000_0000_0000_0000_0000int,
            lo == data3 * 0x1_0000_0000_0000_0000int,
            data1 < 0x1_0000_0000int,
            data2 < 0x1_0000int,
            data3 < 0x1_0000int,
            low < 0x1_0000_0000_0000_0000int,
    ;
    hi + mid + lo + low
}

} // verus!

verus! {

/// The plan to put back once a session with the High performance plan
/// ends; it is also recorded in a marker file, so a launcher that did not
/// outlive the game restores it on its next start.
#[derive(Debug, Clone, Copy)]
pub struct PowerPlanRestore {
    pub previous: u128,
}

/// The session switches plans unless High performance is already active;
/// the plan active before is what comes back afterwards.
pub fn plan_switch(active: u128) -> (r: Option<PowerPlanRestore>)
    ensures
        r is None <==> active == HIGH_PERFORMANCE_PLAN,
        r matches Some(p) ==> p.previous == active,
{
    if active == HIGH_PERFORMANCE_PLAN {
        None
    } else {
        Some(PowerPlanRestore { previous: active })
    }
}

impl PowerPlanRestore {
    /// What the marker file holds: the plan in `powercfg` form.
    pub fn marker_text(&self) -> (r: String)
        ensures
            r@ == guid_text(self.previous),
    {
        format_guid(self.previous)
    }

    /// The plan a marker file records, when it holds a GUID.
    pub fn from_marker(text: &str) -> (r: Option<PowerPlanRestore>)
        ensures
            match r {
                Some(p) => parse_guid_spec(text@) == Some(p.previous),
                None => parse_guid_spec(text@) is None,
            },
    {
        match parse_guid(text) {
            Some(g) => Some(PowerPlanRestore { previous: g }),
            None => None,
        }
    }
}

/// The marker a session writes is read back as the plan it recorded: a
/// launcher that restarts restores exactly the plan that was replaced.
pub proof fn lemma_marker_round_trip(p: PowerPlanRestore)
    ensures
        parse_guid_spec(guid_text(p.previous)) == Some(p.previous),
{
    lemma_guid_round_trip(p.previous);
}

} // verus!
