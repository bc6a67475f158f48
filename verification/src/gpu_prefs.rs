//! The per-executable graphics entry Windows keeps under
//! `HKCU\Software\Microsoft\DirectX\UserGpuPreferences`: a `Key=Value;` list
//! (which GPU to run on, how windowed frames are presented), and how the
//! launcher's toggles are folded into it without touching what the user set
//! elsewhere.

use vstd::prelude::*;

use crate::settings::AppSettings;
use crate::text::{
    chars_of, eq_chars, eq_ic, eq_ignore_case, push_all, push_str, split, split_chars, split_once,
    split_once_chars, string_of, string_views, to_owned_string, trim, trimmed, views,
};

verus! {

/// One `Key=Value` pair, as text.
pub type Entry = (Seq<char>, Seq<char>);

/// The `Key=Value;` list Windows stores per executable, as the Settings >
/// System > Display > Graphics page reads and writes it.
#[derive(Debug, Default, PartialEq)]
pub struct GpuPreferences {
    entries: Vec<(Vec<char>, Vec<char>)>,
}

pub open spec fn entry_views(v: Seq<(Vec<char>, Vec<char>)>) -> Seq<Entry> {
    v.map_values(|e: (Vec<char>, Vec<char>)| (e.0@, e.1@))
}

impl View for GpuPreferences {
    type V = Seq<Entry>;

    closed spec fn view(&self) -> Seq<Entry> {
        entry_views(self.entries@)
    }
}

/// What one `;`-separated item contributes: its trimmed key and value when
/// it has an `=` and a non-empty key, nothing otherwise.
pub open spec fn entry_of(item: Seq<char>) -> Seq<Entry> {
    match split_once(item, '=') {
        Some((k, v)) => if trim(k).len() > 0 {
            seq![(trim(k), trim(v))]
        } else {
            seq![]
        },
        None => seq![],
    }
}

pub open spec fn entries_of(items: Seq<Seq<char>>) -> Seq<Entry>
    decreases items.len(),
{
    if items.len() == 0 {
        seq![]
    } else {
        entries_of(items.drop_last()) + entry_of(items.last())
    }
}

/// The entries of a registry value, in order.
pub open spec fn parse_spec(raw: Seq<char>) -> Seq<Entry> {
    entries_of(split(raw, ';'))
}

/// Position of the first entry whose key matches `key` ignoring ASCII case,
/// or -1.
pub open spec fn key_index(es: Seq<Entry>, key: Seq<char>) -> int
    decreases es.len(),
{
    if es.len() == 0 {
        -1
    } else if eq_ic(es[0].0, key) {
        0
    } else if key_index(es.drop_first(), key) < 0 {
        -1
    } else {
        key_index(es.drop_first(), key) + 1
    }
}

/// `key` set to `value`: the first matching entry keeps its spelling of the
/// key and takes the new value; without one, the pair is appended.
pub open spec fn set_spec(es: Seq<Entry>, key: Seq<char>, value: Seq<char>) -> Seq<Entry> {
    let i = key_index(es, key);
    if i < 0 {
        es.push((key, value))
    } else {
        es.update(i, (es[i].0, value))
    }
}

/// The entry is `key` (ignoring ASCII case) holding exactly `value`.
pub open spec fn holds(e: Entry, key: Seq<char>, value: Seq<char>) -> bool {
    eq_ic(e.0, key) && e.1 == value
}

/// Every entry that is `key` holding `value` removed, the rest in order.
pub open spec fn unset_spec(es: Seq<Entry>, key: Seq<char>, value: Seq<char>) -> Seq<Entry>
    decreases es.len(),
{
    if es.len() == 0 {
        seq![]
    } else if holds(es.last(), key, value) {
        unset_spec(es.drop_last(), key, value)
    } else {
        unset_spec(es.drop_last(), key, value).push(es.last())
    }
}

/// The `Key=Value;` text of some entries, trailing semicolon included.
pub open spec fn registry_text(es: Seq<Entry>) -> Seq<char>
    decreases es.len(),
{
    if es.len() == 0 {
        seq![]
    } else {
        registry_text(es.drop_last()) + es.last().0 + seq!['='] + es.last().1 + seq![';']
    }
}

pub proof fn lemma_key_index_bounds(es: Seq<Entry>, key: Seq<char>)
    ensures
        -1 <= key_index(es, key) < es.len(),
        key_index(es, key) >= 0 ==> eq_ic(es[key_index(es, key)].0, key),
        key_index(es, key) < 0 ==> forall|j: int| 0 <= j < es.len() ==> !eq_ic(#[trigger] es[j].0, key),
        forall|j: int| 0 <= j < key_index(es, key) ==> !eq_ic(#[trigger] es[j].0, key),
    decreases es.len(),
{
    if es.len() > 0 && !eq_ic(es[0].0, key) {
        lemma_key_index_bounds(es.drop_first(), key);
        assert forall|j: int| 1 <= j < es.len() implies es[j] == es.drop_first()[j - 1] by {}
    }
}

pub proof fn lemma_key_index_at(es: Seq<Entry>, key: Seq<char>, k: int)
    requires
        0 <= k <= es.len(),
        k < es.len() ==> eq_ic(es[k].0, key),
        forall|j: int| 0 <= j < k ==> !eq_ic(#[trigger] es[j].0, key),
    ensures
        key_index(es, key) == (if k < es.len() { k } else { -1 }),
    decreases k,
{
    if k > 0 {
        assert forall|j: int| 0 <= j < k - 1 implies !eq_ic(#[trigger] es.drop_first()[j].0, key) by {
            assert(es.drop_first()[j] == es[j + 1]);
        }
        lemma_key_index_at(es.drop_first(), key, k - 1);
    }
}

impl GpuPreferences {
    /// Read a registry value, tolerating stray spaces, empty items and items
    /// without a key.
    pub fn parse(raw: &str) -> (r: Self)
        ensures
            r@ == parse_spec(raw@),
    {
        let v = chars_of(raw);
        let items = split_chars(v.as_slice(), ';');
        let mut entries: Vec<(Vec<char>, Vec<char>)> = Vec::new();
        let mut i: usize = 0;
        while i < items.len()
            invariant
                i <= items@.len(),
                views(items@) == split(raw@, ';'),
                entry_views(entries@) == entries_of(views(items@).take(i as int)),
            decreases items.len() - i,
        {
            let ghost item = items@[i as int]@;
            assert(views(items@)[i as int] == item);
            assert(views(items@).take(i + 1).drop_last() =~= views(items@).take(i as int));
            assert(views(items@).take(i + 1).last() == item);
            let ghost before = entry_views(entries@);
            match split_once_chars(items[i].as_slice(), '=') {
                Some((k, val)) => {
                    let k = trimmed(k.as_slice());
                    if k.len() > 0 {
                        let val = trimmed(val.as_slice());
                        entries.push((k, val));
                        assert(entry_views(entries@) =~= before + entry_of(item));
                    } else {
                        assert(entry_of(item) =~= seq![]);
                        assert(entry_views(entries@) =~= before + entry_of(item));
                    }
                },
                None => {
                    assert(entry_views(entries@) =~= before + entry_of(item));
                },
            }
            i = i + 1;
        }
        assert(views(items@).take(items@.len() as int) =~= views(items@));
        GpuPreferences { entries }
    }

    /// Set `key` to `value`, replacing the value of an existing entry (whose
    /// spelling of the key stays) or appending a new one.
    pub fn set(&mut self, key: &str, value: &str)
        ensures
            final(self)@ == set_spec(old(self)@, key@, value@),
    {
        let k = chars_of(key);
        let val = chars_of(value);
        let mut i: usize = 0;
        while i < self.entries.len()
            invariant
                i <= self.entries@.len(),
                k@ == key@,
                val@ == value@,
                self.entries@ == old(self).entries@,
                forall|j: int| 0 <= j < i ==> !eq_ic(#[trigger] self@[j].0, key@),
            decreases self.entries.len() - i,
        {
            assert(self@[i as int].0 == self.entries@[i as int].0@);
            if eq_ignore_case(self.entries[i].0.as_slice(), k.as_slice()) {
                proof {
                    lemma_key_index_at(self@, key@, i as int);
                }
                let ghost before = self@;
                let name = slice_copy(self.entries[i].0.as_slice());
                self.entries.set(i, (name, val));
                assert(self@ =~= before.update(i as int, (before[i as int].0, value@)));
                return;
            }
            i = i + 1;
        }
        proof {
            lemma_key_index_at(self@, key@, i as int);
        }
        let ghost before = self@;
        self.entries.push((k, val));
        assert(self@ =~= before.push((key@, value@)));
    }

    /// Remove `key`, but only while it still holds `value`: undoing the
    /// launcher's own entry must not discard a different choice the user has
    /// since made in Windows Settings.
    pub fn unset_if(&mut self, key: &str, value: &str)
        ensures
            final(self)@ == unset_spec(old(self)@, key@, value@),
    {
        let k = chars_of(key);
        let val = chars_of(value);
        let mut kept: Vec<(Vec<char>, Vec<char>)> = Vec::new();
        let mut i: usize = 0;
        while i < self.entries.len()
            invariant
                i <= self.entries@.len(),
                k@ == key@,
                val@ == value@,
                self.entries@ == old(self).entries@,
                entry_views(kept@) == unset_spec(self@.take(i as int), key@, value@),
            decreases self.entries.len() - i,
        {
            let ghost e = self@[i as int];
            assert(self@.take(i + 1).drop_last() =~= self@.take(i as int));
            assert(self@.take(i + 1).last() == e);
            let name = &self.entries[i].0;
            let v = &self.entries[i].1;
            if !(eq_ignore_case(name.as_slice(), k.as_slice()) && eq_chars(v.as_slice(), val.as_slice())) {
                let ghost before = entry_views(kept@);
                kept.push((slice_copy(name.as_slice()), slice_copy(v.as_slice())));
                assert(entry_views(kept@) =~= before.push(e));
            }
            i = i + 1;
        }
        assert(self@.take(self@.len() as int) =~= self@);
        self.entries = kept;
    }

    /// Back to the `Key=Value;` form, trailing semicolon included, exactly
    /// as Windows writes it.
    pub fn to_registry_string(&self) -> (r: String)
        ensures
            r@ == registry_text(self@),
    {
        let mut out: Vec<char> = Vec::new();
        let mut i: usize = 0;
        while i < self.entries.len()
            invariant
                i <= self.entries@.len(),
                out@ == registry_text(self@.take(i as int)),
            decreases self.entries.len() - i,
        {
            assert(self@.take(i + 1).drop_last() =~= self@.take(i as int));
            assert(self@.take(i + 1).last() == self@[i as int]);
            push_all(&mut out, self.entries[i].0.as_slice());
            out.push('=');
            push_all(&mut out, self.entries[i].1.as_slice());
            out.push(';');
            assert(out@ =~= registry_text(self@.take(i + 1)));
            i = i + 1;
        }
        assert(self@.take(self@.len() as int) =~= self@);
        string_of(out.as_slice())
    }
}

fn slice_copy(s: &[char]) -> (r: Vec<char>)
    ensures
        r@ == s@,
{
    let r = crate::text::slice_of(s, 0, s.len());
    assert(r@ =~= s@);
    r
}

/// What the launcher last wrote into the graphics entry, and for which
/// executable. Kept next to the settings file, because the registry cannot
/// say who wrote a value: "High performance" set from Windows Settings looks
/// exactly like "High performance" set from here.
#[derive(Debug, Default, PartialEq)]
pub struct OwnedEntries {
    /// The executable the keys below were written for.
    pub exe: String,
    pub keys: Vec<String>,
}

/// The record says the launcher wrote `key` for `exe` (the executable
/// compared ignoring ASCII case, the key exactly).
pub open spec fn owns_spec(o: OwnedEntries, exe: Seq<char>, key: Seq<char>) -> bool {
    eq_ic(o.exe@, exe) && exists|i: int| 0 <= i < o.keys@.len() && #[trigger] o.keys@[i]@ == key
}

impl OwnedEntries {
    fn owns(&self, exe: &str, key: &str) -> (b: bool)
        ensures
            b == owns_spec(*self, exe@, key@),
    {
        let e = chars_of(self.exe.as_str());
        let x = chars_of(exe);
        if !eq_ignore_case(e.as_slice(), x.as_slice()) {
            return false;
        }
        let k = chars_of(key);
        let mut i: usize = 0;
        while i < self.keys.len()
            invariant
                i <= self.keys@.len(),
                k@ == key@,
                eq_ic(self.exe@, exe@),
                forall|j: int| 0 <= j < i ==> #[trigger] self.keys@[j]@ != key@,
            decreases self.keys.len() - i,
        {
            let ki = chars_of(self.keys[i].as_str());
            if eq_chars(ki.as_slice(), k.as_slice()) {
                assert(self.keys@[i as int]@ == key@);
                return true;
            }
            i = i + 1;
        }
        false
    }
}

/// `GpuPreference` as the Graphics page sets it: 2 is "High performance".
pub open spec fn gpu_key() -> Seq<char> {
    "GpuPreference"@
}

pub open spec fn gpu_high() -> Seq<char> {
    "2"@
}

/// "Optimizations for windowed games": flip-model presentation when 1.
pub open spec fn swap_key() -> Seq<char> {
    "SwapEffectUpgradeEnable"@
}

pub open spec fn swap_on() -> Seq<char> {
    "1"@
}

/// One toggle folded into the entries: on writes its value, off takes back
/// the launcher's own value when the record says the launcher wrote it, and
/// otherwise leaves the entries alone.
pub open spec fn toggle(es: Seq<Entry>, key: Seq<char>, value: Seq<char>, on: bool, owned: bool) -> Seq<Entry> {
    if on {
        set_spec(es, key, value)
    } else if owned {
        unset_spec(es, key, value)
    } else {
        es
    }
}

/// The entries `reconcile` leaves.
pub open spec fn reconciled(current: Seq<char>, owned: OwnedEntries, exe: Seq<char>, dgpu: bool, windowed: bool) -> Seq<Entry> {
    let e1 = toggle(parse_spec(current), gpu_key(), gpu_high(), dgpu, owns_spec(owned, exe, gpu_key()));
    toggle(e1, swap_key(), swap_on(), windowed, owns_spec(owned, exe, swap_key()))
}

/// The keys the launcher owns after `reconcile`: those of the toggles that
/// are on, in order.
pub open spec fn owned_after(dgpu: bool, windowed: bool) -> Seq<Seq<char>> {
    (if dgpu { seq![gpu_key()] } else { seq![] }) + (if windowed { seq![swap_key()] } else { seq![] })
}

/// Fold the launcher's toggles into the existing entry for `exe`, and report
/// what the launcher now owns.
///
/// A toggle that is on writes its key. A toggle that is off removes its key
/// only if `owned` says the launcher put it there; anything else living in the
/// same entry is left exactly as it was.
pub fn reconcile(current: &str, owned: &OwnedEntries, exe: &str, settings: &AppSettings) -> (r: (String, OwnedEntries))
    ensures
        r.0@ == registry_text(reconciled(current@, *owned, exe@, settings.windows_prefer_dgpu, settings.windows_windowed_optimizations)),
        r.1.exe@ == exe@,
        string_views(r.1.keys@) == owned_after(settings.windows_prefer_dgpu, settings.windows_windowed_optimizations),
{
    let mut prefs = GpuPreferences::parse(current);
    let mut now_owned: Vec<String> = Vec::new();
    let ghost e0 = prefs@;
    if settings.windows_prefer_dgpu {
        prefs.set("GpuPreference", "2");
        now_owned.push(to_owned_string("GpuPreference"));
    } else if owned.owns(exe, "GpuPreference") {
        prefs.unset_if("GpuPreference", "2");
    }
    assert(prefs@ == toggle(e0, gpu_key(), gpu_high(), settings.windows_prefer_dgpu, owns_spec(*owned, exe@, gpu_key())));
    let ghost e1 = prefs@;
    let ghost k1 = string_views(now_owned@);
    if settings.windows_windowed_optimizations {
        prefs.set("SwapEffectUpgradeEnable", "1");
        let s = to_owned_string("SwapEffectUpgradeEnable");
        proof {
            crate::text::lemma_string_views_push(now_owned@, s);
        }
        now_owned.push(s);
    } else if owned.owns(exe, "SwapEffectUpgradeEnable") {
        prefs.unset_if("SwapEffectUpgradeEnable", "1");
    }
    assert(string_views(now_owned@) =~= owned_after(settings.windows_prefer_dgpu, settings.windows_windowed_optimizations));
    (prefs.to_registry_string(), OwnedEntries { exe: to_owned_string(exe), keys: now_owned })
}

} // verus!

verus! {

/// An entry the launcher's toggles never touch: neither of its two keys.
pub open spec fn foreign(e: Entry) -> bool {
    !eq_ic(e.0, gpu_key()) && !eq_ic(e.0, swap_key())
}

pub open spec fn foreign_entries(es: Seq<Entry>) -> Seq<Entry> {
    es.filter(|e: Entry| foreign(e))
}

proof fn lemma_filter_update(es: Seq<Entry>, i: int, x: Entry)
    requires
        0 <= i < es.len(),
        !foreign(es[i]),
        !foreign(x),
    ensures
        foreign_entries(es.update(i, x)) == foreign_entries(es),
    decreases es.len(),
{
    let p = |e: Entry| foreign(e);
    if i == es.len() - 1 {
        assert(es.update(i, x) =~= es.drop_last().push(x));
        assert(es =~= es.drop_last().push(es.last()));
        es.drop_last().lemma_filter_push(x, p);
        es.drop_last().lemma_filter_push(es.last(), p);
    } else {
        lemma_filter_update(es.drop_last(), i, x);
        assert(es.update(i, x) =~= es.drop_last().update(i, x).push(es.last()));
        assert(es =~= es.drop_last().push(es.last()));
        es.drop_last().update(i, x).lemma_filter_push(es.last(), p);
        es.drop_last().lemma_filter_push(es.last(), p);
    }
}

/// Setting one of the launcher's keys leaves every foreign entry as it was.
proof fn lemma_set_keeps_foreign(es: Seq<Entry>, key: Seq<char>, value: Seq<char>)
    requires
        key == gpu_key() || key == swap_key(),
    ensures
        foreign_entries(set_spec(es, key, value)) == foreign_entries(es),
{
    lemma_key_index_bounds(es, key);
    let i = key_index(es, key);
    let p = |e: Entry| foreign(e);
    assert(eq_ic(key, key));
    if i < 0 {
        es.lemma_filter_push((key, value), p);
    } else {
        lemma_filter_update(es, i, (es[i].0, value));
    }
}

/// Taking back one of the launcher's keys leaves every foreign entry.
proof fn lemma_unset_keeps_foreign(es: Seq<Entry>, key: Seq<char>, value: Seq<char>)
    requires
        key == gpu_key() || key == swap_key(),
    ensures
        foreign_entries(unset_spec(es, key, value)) == foreign_entries(es),
    decreases es.len(),
{
    let p = |e: Entry| foreign(e);
    if es.len() > 0 {
        lemma_unset_keeps_foreign(es.drop_last(), key, value);
        assert(es =~= es.drop_last().push(es.last()));
        es.drop_last().lemma_filter_push(es.last(), p);
        if !holds(es.last(), key, value) {
            unset_spec(es.drop_last(), key, value).lemma_filter_push(es.last(), p);
        }
    } else {
        assert(foreign_entries(es) =~= Seq::<Entry>::empty());
        assert(foreign_entries(unset_spec(es, key, value)) =~= Seq::<Entry>::empty());
    }
}

/// Whatever else lives in the game's graphics entry (Auto HDR, a choice made
/// on the Windows graphics page for another setting) survives `reconcile`
/// unchanged and in order, whichever way the toggles are set.
pub proof fn lemma_reconcile_keeps_foreign(current: Seq<char>, owned: OwnedEntries, exe: Seq<char>, dgpu: bool, windowed: bool)
    ensures
        foreign_entries(reconciled(current, owned, exe, dgpu, windowed)) == foreign_entries(parse_spec(current)),
{
    let e0 = parse_spec(current);
    let e1 = toggle(e0, gpu_key(), gpu_high(), dgpu, owns_spec(owned, exe, gpu_key()));
    if dgpu {
        lemma_set_keeps_foreign(e0, gpu_key(), gpu_high());
    } else if owns_spec(owned, exe, gpu_key()) {
        lemma_unset_keeps_foreign(e0, gpu_key(), gpu_high());
    }
    if windowed {
        lemma_set_keeps_foreign(e1, swap_key(), swap_on());
    } else if owns_spec(owned, exe, swap_key()) {
        lemma_unset_keeps_foreign(e1, swap_key(), swap_on());
    }
}

/// A record made for another executable authorizes nothing: with both
/// toggles off, the entry is left exactly as it was found.
pub proof fn lemma_foreign_record_authorizes_nothing(current: Seq<char>, owned: OwnedEntries, exe: Seq<char>)
    requires
        !eq_ic(owned.exe@, exe),
    ensures
        reconciled(current, owned, exe, false, false) == parse_spec(current),
{
}

/// Switching a toggle off never takes away a value the launcher does not
/// write: when no entry holds the launcher's own value, taking it back
/// changes nothing, whether the launcher owns the key or not.
pub proof fn lemma_switch_off_keeps_other_values(es: Seq<Entry>, key: Seq<char>, value: Seq<char>, owned: bool)
    requires
        forall|i: int| 0 <= i < es.len() ==> !holds(#[trigger] es[i], key, value),
    ensures
        toggle(es, key, value, false, owned) == es,
    decreases es.len(),
{
    if es.len() > 0 {
        let init = es.drop_last();
        assert forall|i: int| 0 <= i < init.len() implies !holds(#[trigger] init[i], key, value) by {
            assert(init[i] == es[i]);
        }
        lemma_switch_off_keeps_other_values(init, key, value, owned);
        assert(!holds(es[es.len() - 1], key, value));
        assert(init.push(es.last()) =~= es);
    }
}

/// With a toggle on, its key holds the launcher's value afterwards.
pub proof fn lemma_toggle_on_sets(es: Seq<Entry>, key: Seq<char>, value: Seq<char>, owned: bool)
    ensures
        ({
            let r = toggle(es, key, value, true, owned);
            let i = key_index(r, key);
            0 <= i < r.len() && r[i].1 == value
        }),
{
    lemma_key_index_bounds(es, key);
    let i = key_index(es, key);
    let r = set_spec(es, key, value);
    lemma_key_index_bounds(r, key);
    assert(eq_ic(key, key));
    if i < 0 {
        assert forall|j: int| 0 <= j < es.len() implies !eq_ic(#[trigger] r[j].0, key) by {
            assert(r[j] == es[j]);
        }
        lemma_key_index_at(r, key, es.len() as int);
    } else {
        assert forall|j: int| 0 <= j < i implies !eq_ic(#[trigger] r[j].0, key) by {
            assert(r[j] == es[j]);
        }
        lemma_key_index_at(r, key, i);
    }
}

} // verus!

verus! {

/// The registry value name for an executable: its full path, backslashes
/// and all, since a forward-slash path would make an entry Windows never
/// matches against the process.
pub fn value_name_for(exe_path: &str) -> (r: String)
    ensures
        r@ == crate::text::replace(exe_path@, '/', "\\"@),
{
    let v = chars_of(exe_path);
    let bs = chars_of("\\");
    let r = crate::text::replace_chars(v.as_slice(), '/', bs.as_slice());
    string_of(r.as_slice())
}

/// Whether the registry needs opening at all before a launch: a toggle is
/// on, or the launcher has something of its own to take back.
pub fn needs_registry(settings: &AppSettings, owned: &OwnedEntries) -> (b: bool)
    ensures
        b == (settings.windows_prefer_dgpu || settings.windows_windowed_optimizations || owned.keys@.len() > 0),
{
    settings.windows_prefer_dgpu || settings.windows_windowed_optimizations || owned.keys.len() > 0
}

/// What happens to the registry value.
#[derive(Debug)]
pub enum RegistryChange {
    /// It already holds what is wanted.
    Keep,
    /// Nothing is left in it: the value is deleted.
    Delete,
    /// It is written with this text.
    Write(String),
}

pub open spec fn same_record(a: OwnedEntries, b: OwnedEntries) -> bool {
    a.exe@ == b.exe@ && string_views(a.keys@) == string_views(b.keys@)
}

fn records_equal(a: &OwnedEntries, b: &OwnedEntries) -> (r: bool)
    ensures
        r == same_record(*a, *b),
{
    if !crate::text::same_text(a.exe.as_str(), b.exe.as_str()) {
        return false;
    }
    if a.keys.len() != b.keys.len() {
        assert(string_views(a.keys@).len() != string_views(b.keys@).len());
        return false;
    }
    let mut i: usize = 0;
    while i < a.keys.len()
        invariant
            i <= a.keys@.len(),
            a.keys@.len() == b.keys@.len(),
            forall|j: int| 0 <= j < i ==> #[trigger] a.keys@[j]@ == b.keys@[j]@,
        decreases a.keys.len() - i,
    {
        if !crate::text::same_text(a.keys[i].as_str(), b.keys[i].as_str()) {
            assert(string_views(a.keys@)[i as int] != string_views(b.keys@)[i as int]);
            return false;
        }
        i = i + 1;
    }
    assert(string_views(a.keys@) =~= string_views(b.keys@));
    true
}

/// The graphics entry brought in line with the toggles before a launch:
/// how the registry value changes (`current` is what it holds now, empty
/// when absent), and the new ownership record when it differs from the old
/// one (an empty record is removed rather than written).
pub fn plan_gpu_sync(current: &str, owned: &OwnedEntries, exe: &str, settings: &AppSettings) -> (r: (
    RegistryChange,
    Option<OwnedEntries>,
))
    ensures
        ({
            let wanted = registry_text(
                reconciled(current@, *owned, exe@, settings.windows_prefer_dgpu, settings.windows_windowed_optimizations),
            );
            match r.0 {
                RegistryChange::Keep => wanted == current@,
                RegistryChange::Delete => wanted != current@ && wanted.len() == 0,
                RegistryChange::Write(w) => wanted != current@ && wanted.len() > 0 && w@ == wanted,
            }
        }),
        match r.1 {
            Some(rec) => rec.exe@ == exe@ && string_views(rec.keys@) == owned_after(
                settings.windows_prefer_dgpu,
                settings.windows_windowed_optimizations,
            ) && !same_record(rec, *owned),
            None => owned.exe@ == exe@ && string_views(owned.keys@) == owned_after(
                settings.windows_prefer_dgpu,
                settings.windows_windowed_optimizations,
            ),
        },
{
    let (wanted, now_owned) = reconcile(current, owned, exe, settings);
    let change = if crate::text::same_text(wanted.as_str(), current) {
        RegistryChange::Keep
    } else if wanted.as_str().unicode_len() == 0 {
        RegistryChange::Delete
    } else {
        RegistryChange::Write(wanted)
    };
    let record = if records_equal(&now_owned, owned) {
        None
    } else {
        Some(now_owned)
    };
    (change, record)
}

} // verus!

verus! {

/// An entry that reads back as itself once written: a non-empty key
/// without `=` or `;`, a value without `;`, neither with whitespace at its
/// ends.
pub open spec fn clean_entry(e: Entry) -> bool {
    &&& e.0.len() > 0
    &&& trim(e.0) == e.0
    &&& trim(e.1) == e.1
    &&& crate::text::free_of(e.0, '=')
    &&& crate::text::free_of(e.0, ';')
    &&& crate::text::free_of(e.1, ';')
}

pub open spec fn all_clean(es: Seq<Entry>) -> bool {
    forall|i: int| 0 <= i < es.len() ==> clean_entry(#[trigger] es[i])
}

/// The `Key=Value` items of some entries, without their semicolons.
pub open spec fn items_of(es: Seq<Entry>) -> Seq<Seq<char>> {
    es.map_values(|e: Entry| e.0 + seq!['='] + e.1)
}

proof fn lemma_item_reads_back(e: Entry)
    requires
        clean_entry(e),
    ensures
        entry_of(e.0 + seq!['='] + e.1) == seq![e],
{
    let it = e.0 + seq!['='] + e.1;
    assert(it =~= e.0 + (seq!['='] + e.1));
    crate::text::lemma_find_concat(e.0, seq!['='] + e.1, '=');
    assert((seq!['='] + e.1)[0] == '=');
    assert(crate::text::find(seq!['='] + e.1, '=') == 0);
    let n = e.0.len() as int;
    assert(it.take(n) =~= e.0);
    assert(it.skip(n + 1) =~= e.1);
}

proof fn lemma_split_registry_text(es: Seq<Entry>)
    requires
        all_clean(es),
    ensures
        split(registry_text(es), ';') == items_of(es).push(Seq::<char>::empty()),
    decreases es.len(),
{
    if es.len() == 0 {
        crate::text::lemma_find_none(Seq::<char>::empty(), ';');
        assert(items_of(es).push(Seq::<char>::empty()) =~= seq![Seq::<char>::empty()]);
    } else {
        let p = es.drop_last();
        assert forall|i: int| 0 <= i < p.len() implies clean_entry(#[trigger] p[i]) by {
            assert(p[i] == es[i]);
        }
        lemma_split_registry_text(p);
        let e = es.last();
        assert(clean_entry(e));
        let x = registry_text(p);
        let item = e.0 + seq!['='] + e.1;
        assert(crate::text::free_of(item, ';')) by {
            assert forall|i: int| 0 <= i < item.len() implies item[i] != ';' by {
                if i < e.0.len() {
                    assert(item[i] == e.0[i]);
                } else if i > e.0.len() {
                    assert(item[i] == e.1[i - e.0.len() - 1]);
                }
            }
        }
        crate::text::lemma_split_append(x, item, ';');
        let y = x + item;
        assert(x + e.0 + seq!['='] + e.1 =~= y);
        crate::text::lemma_split_concat(y, Seq::<char>::empty(), ';');
        assert(y + seq![';'] + Seq::<char>::empty() =~= registry_text(es));
        crate::text::lemma_find_none(Seq::<char>::empty(), ';');
        assert(split(Seq::<char>::empty(), ';') =~= seq![Seq::<char>::empty()]);
        assert(split(x, ';').last() + item =~= item);
        assert(split(y, ';') =~= items_of(es));
        assert(split(registry_text(es), ';') =~= items_of(es).push(Seq::<char>::empty()));
    }
}

proof fn lemma_entries_of_items(es: Seq<Entry>)
    requires
        all_clean(es),
    ensures
        entries_of(items_of(es)) == es,
    decreases es.len(),
{
    if es.len() > 0 {
        let p = es.drop_last();
        assert forall|i: int| 0 <= i < p.len() implies clean_entry(#[trigger] p[i]) by {
            assert(p[i] == es[i]);
        }
        lemma_entries_of_items(p);
        assert(items_of(es).drop_last() =~= items_of(p));
        lemma_item_reads_back(es.last());
        assert(es =~= p + seq![es.last()]);
    } else {
        assert(items_of(es) =~= Seq::<Seq<char>>::empty());
    }
}

/// What is written reads back as what was written: clean entries, turned
/// into registry text and parsed again, are the same entries in the same
/// order.
pub proof fn lemma_registry_round_trip(es: Seq<Entry>)
    requires
        all_clean(es),
    ensures
        parse_spec(registry_text(es)) == es,
{
    lemma_split_registry_text(es);
    lemma_entries_of_items(es);
    let its = items_of(es);
    assert(its.push(Seq::<char>::empty()).drop_last() =~= its);
    crate::text::lemma_find_none(Seq::<char>::empty(), '=');
    assert(entry_of(Seq::<char>::empty()) =~= Seq::<Entry>::empty());
    assert(entries_of(its) + Seq::<Entry>::empty() =~= entries_of(its));
}

proof fn lemma_entry_of_clean(item: Seq<char>)
    requires
        crate::text::free_of(item, ';'),
    ensures
        all_clean(entry_of(item)),
{
    let f = crate::text::find(item, '=');
    crate::text::lemma_find_bounds(item, '=');
    if f >= 0 {
        let k = item.take(f);
        let v = item.skip(f + 1);
        assert(crate::text::free_of(k, '=')) by {
            assert forall|i: int| 0 <= i < k.len() implies k[i] != '=' by {
                assert(k[i] == item[i]);
            }
        }
        assert(crate::text::free_of(k, ';')) by {
            assert forall|i: int| 0 <= i < k.len() implies k[i] != ';' by {
                assert(k[i] == item[i]);
            }
        }
        assert(crate::text::free_of(v, ';')) by {
            assert forall|i: int| 0 <= i < v.len() implies v[i] != ';' by {
                assert(v[i] == item[i + f + 1]);
            }
        }
        crate::text::lemma_trim_idempotent(k, '=');
        crate::text::lemma_trim_idempotent(k, ';');
        crate::text::lemma_trim_idempotent(v, ';');
    }
}

/// Every entry read from a registry value is clean.
pub proof fn lemma_parse_clean(raw: Seq<char>)
    ensures
        all_clean(parse_spec(raw)),
{
    crate::text::lemma_split_pieces_free(raw, ';');
    lemma_entries_clean(split(raw, ';'));
}

proof fn lemma_entries_clean(items: Seq<Seq<char>>)
    requires
        forall|i: int| 0 <= i < items.len() ==> crate::text::free_of(#[trigger] items[i], ';'),
    ensures
        all_clean(entries_of(items)),
    decreases items.len(),
{
    if items.len() > 0 {
        let p = items.drop_last();
        assert forall|i: int| 0 <= i < p.len() implies crate::text::free_of(#[trigger] p[i], ';') by {
            assert(p[i] == items[i]);
        }
        lemma_entries_clean(p);
        lemma_entry_of_clean(items.last());
        let a = entries_of(p);
        let b = entry_of(items.last());
        assert forall|i: int| 0 <= i < (a + b).len() implies clean_entry(#[trigger] (a + b)[i]) by {
            if i < a.len() {
                assert((a + b)[i] == a[i]);
            } else {
                assert((a + b)[i] == b[i - a.len()]);
            }
        }
    }
}

proof fn lemma_unset_clean(es: Seq<Entry>, key: Seq<char>, value: Seq<char>)
    requires
        all_clean(es),
    ensures
        all_clean(unset_spec(es, key, value)),
    decreases es.len(),
{
    if es.len() > 0 {
        let p = es.drop_last();
        assert forall|i: int| 0 <= i < p.len() implies clean_entry(#[trigger] p[i]) by {
            assert(p[i] == es[i]);
        }
        lemma_unset_clean(p, key, value);
        assert(clean_entry(es.last()));
    }
}

proof fn lemma_toggle_clean(es: Seq<Entry>, key: Seq<char>, value: Seq<char>, on: bool, owned: bool)
    requires
        all_clean(es),
        clean_entry((key, value)),
    ensures
        all_clean(toggle(es, key, value, on, owned)),
{
    if on {
        lemma_key_index_bounds(es, key);
        let i = key_index(es, key);
        if i >= 0 {
            assert(clean_entry(es[i]));
        }
    } else if owned {
        lemma_unset_clean(es, key, value);
    }
}

proof fn lemma_plain_clean(k: Seq<char>, v: Seq<char>)
    requires
        k.len() > 0,
        v.len() > 0,
        !crate::text::is_ws(k[0]),
        !crate::text::is_ws(k.last()),
        !crate::text::is_ws(v[0]),
        !crate::text::is_ws(v.last()),
        crate::text::free_of(k, '='),
        crate::text::free_of(k, ';'),
        crate::text::free_of(v, ';'),
    ensures
        clean_entry((k, v)),
{
    assert(crate::text::trim_start(k) == k);
    assert(crate::text::trim_start(v) == v);
}

/// The launcher's own two settings are clean entries.
proof fn lemma_own_entries_clean()
    ensures
        clean_entry((gpu_key(), gpu_high())),
        clean_entry((swap_key(), swap_on())),
{
    reveal_strlit("GpuPreference");
    reveal_strlit("2");
    reveal_strlit("SwapEffectUpgradeEnable");
    reveal_strlit("1");
    lemma_plain_clean(gpu_key(), gpu_high());
    lemma_plain_clean(swap_key(), swap_on());
}

/// What `reconcile` writes into the registry reads back as the entries it
/// decided on: the next launch starts from exactly what this one wrote.
pub proof fn lemma_reconcile_reads_back(current: Seq<char>, owned: OwnedEntries, exe: Seq<char>, dgpu: bool, windowed: bool)
    ensures
        parse_spec(registry_text(reconciled(current, owned, exe, dgpu, windowed))) == reconciled(
            current,
            owned,
            exe,
            dgpu,
            windowed,
        ),
{
    lemma_parse_clean(current);
    lemma_own_entries_clean();
    let e0 = parse_spec(current);
    lemma_toggle_clean(e0, gpu_key(), gpu_high(), dgpu, owns_spec(owned, exe, gpu_key()));
    let e1 = toggle(e0, gpu_key(), gpu_high(), dgpu, owns_spec(owned, exe, gpu_key()));
    lemma_toggle_clean(e1, swap_key(), swap_on(), windowed, owns_spec(owned, exe, swap_key()));
    lemma_registry_round_trip(reconciled(current, owned, exe, dgpu, windowed));
}

/// The first entry for `key` holds `value`.
pub open spec fn has_value(es: Seq<Entry>, key: Seq<char>, value: Seq<char>) -> bool {
    key_index(es, key) >= 0 && es[key_index(es, key)].1 == value
}

proof fn lemma_eq_ic_link(a: Seq<char>, b: Seq<char>, c: Seq<char>)
    requires
        eq_ic(a, b),
        eq_ic(a, c),
    ensures
        eq_ic(b, c),
{
    assert forall|i: int| 0 <= i < b.len() implies crate::text::lower(#[trigger] b[i]) == crate::text::lower(c[i]) by {
        assert(crate::text::lower(a[i]) == crate::text::lower(b[i]));
        assert(crate::text::lower(a[i]) == crate::text::lower(c[i]));
    }
}

/// Setting another key keeps the value of the first entry for `key`.
proof fn lemma_set_keeps_value(es: Seq<Entry>, key: Seq<char>, value: Seq<char>, k2: Seq<char>, v2: Seq<char>)
    requires
        has_value(es, key, value),
        !eq_ic(key, k2),
    ensures
        has_value(set_spec(es, k2, v2), key, value),
{
    lemma_key_index_bounds(es, key);
    lemma_key_index_bounds(es, k2);
    let i = key_index(es, key);
    let j = key_index(es, k2);
    let es2 = set_spec(es, k2, v2);
    if j < 0 {
        assert(es2 == es.push((k2, v2)));
        assert forall|m: int| 0 <= m < i implies !eq_ic(#[trigger] es2[m].0, key) by {
            assert(es2[m] == es[m]);
        }
        assert(es2[i] == es[i]);
        lemma_key_index_at(es2, key, i);
    } else {
        if i == j {
            lemma_eq_ic_link(es[i].0, key, k2);
        }
        assert(es2 == es.update(j, (es[j].0, v2)));
        assert forall|m: int| 0 <= m < i implies !eq_ic(#[trigger] es2[m].0, key) by {
            assert(es2[m].0 == es[m].0);
        }
        assert(es2[i] == es[i]);
        lemma_key_index_at(es2, key, i);
    }
}

proof fn lemma_unset_keeps_absent(es: Seq<Entry>, key: Seq<char>, k2: Seq<char>, v2: Seq<char>)
    requires
        forall|m: int| 0 <= m < es.len() ==> !eq_ic(#[trigger] es[m].0, key),
    ensures
        forall|m: int| 0 <= m < unset_spec(es, k2, v2).len() ==> !eq_ic(#[trigger] unset_spec(es, k2, v2)[m].0, key),
    decreases es.len(),
{
    if es.len() > 0 {
        let p = es.drop_last();
        assert forall|m: int| 0 <= m < p.len() implies !eq_ic(#[trigger] p[m].0, key) by {
            assert(p[m] == es[m]);
        }
        lemma_unset_keeps_absent(p, key, k2, v2);
        let u = unset_spec(p, k2, v2);
        if !holds(es.last(), k2, v2) {
            assert forall|m: int| 0 <= m < u.push(es.last()).len() implies !eq_ic(#[trigger] u.push(es.last())[m].0, key) by {
                if m < u.len() {
                    assert(u.push(es.last())[m] == u[m]);
                }
            }
        }
    }
}

/// Taking back another key keeps the value of the first entry for `key`.
proof fn lemma_unset_keeps_value(es: Seq<Entry>, key: Seq<char>, value: Seq<char>, k2: Seq<char>, v2: Seq<char>)
    requires
        has_value(es, key, value),
        !eq_ic(key, k2),
    ensures
        has_value(unset_spec(es, k2, v2), key, value),
    decreases es.len(),
{
    lemma_key_index_bounds(es, key);
    let i = key_index(es, key);
    let p = es.drop_last();
    let l = es.last();
    let u = unset_spec(p, k2, v2);
    if holds(l, k2, v2) && i == es.len() - 1 {
        lemma_eq_ic_link(l.0, key, k2);
    }
    if i < es.len() - 1 {
        assert forall|m: int| 0 <= m < i implies !eq_ic(#[trigger] p[m].0, key) by {
            assert(p[m] == es[m]);
        }
        assert(p[i] == es[i]);
        lemma_key_index_at(p, key, i);
        lemma_unset_keeps_value(p, key, value, k2, v2);
        if !holds(l, k2, v2) {
            lemma_key_index_bounds(u, key);
            let iu = key_index(u, key);
            assert forall|m: int| 0 <= m < iu implies !eq_ic(#[trigger] u.push(l)[m].0, key) by {
                assert(u.push(l)[m] == u[m]);
            }
            assert(u.push(l)[iu] == u[iu]);
            lemma_key_index_at(u.push(l), key, iu);
        }
    } else {
        assert forall|m: int| 0 <= m < p.len() implies !eq_ic(#[trigger] p[m].0, key) by {
            assert(p[m] == es[m]);
        }
        lemma_unset_keeps_absent(p, key, k2, v2);
        assert(!holds(l, k2, v2));
        let w = u.push(l);
        assert forall|m: int| 0 <= m < u.len() implies !eq_ic(#[trigger] w[m].0, key) by {
            assert(w[m] == u[m]);
        }
        lemma_key_index_at(w, key, u.len() as int);
    }
}

/// A toggle of the other key keeps the value of the first entry for `key`.
proof fn lemma_toggle_keeps_value(
    es: Seq<Entry>,
    key: Seq<char>,
    value: Seq<char>,
    k2: Seq<char>,
    v2: Seq<char>,
    on: bool,
    owned: bool,
)
    requires
        has_value(es, key, value),
        !eq_ic(key, k2),
    ensures
        has_value(toggle(es, k2, v2, on, owned), key, value),
{
    if on {
        lemma_set_keeps_value(es, key, value, k2, v2);
    } else if owned {
        lemma_unset_keeps_value(es, key, value, k2, v2);
    }
}

/// Setting a key to the value its first entry holds changes nothing.
proof fn lemma_set_fixed(es: Seq<Entry>, key: Seq<char>, value: Seq<char>)
    requires
        has_value(es, key, value),
    ensures
        set_spec(es, key, value) == es,
{
    lemma_key_index_bounds(es, key);
    let i = key_index(es, key);
    assert((es[i].0, value) == es[i]);
    assert(es.update(i, (es[i].0, value)) =~= es);
}

/// Syncing the graphics entry a second time, with the record the first
/// sync left and the same toggles, finds nothing to change: the entries
/// read back from what was written come out of `reconcile` as they went in.
pub proof fn lemma_gpu_sync_idempotent(
    current: Seq<char>,
    owned: OwnedEntries,
    exe: Seq<char>,
    dgpu: bool,
    windowed: bool,
    record: OwnedEntries,
)
    requires
        record.exe@ == exe,
        string_views(record.keys@) == owned_after(dgpu, windowed),
    ensures
        reconciled(registry_text(reconciled(current, owned, exe, dgpu, windowed)), record, exe, dgpu, windowed)
            == reconciled(current, owned, exe, dgpu, windowed),
{
    reveal_strlit("GpuPreference");
    reveal_strlit("SwapEffectUpgradeEnable");
    let r = reconciled(current, owned, exe, dgpu, windowed);
    lemma_reconcile_reads_back(current, owned, exe, dgpu, windowed);
    assert(!eq_ic(gpu_key(), swap_key()));
    assert(!eq_ic(swap_key(), gpu_key()));
    assert(eq_ic(exe, exe));
    let ks = string_views(record.keys@);
    assert(ks.len() == record.keys@.len());
    assert forall|i: int| 0 <= i < record.keys@.len() implies #[trigger] record.keys@[i]@ == ks[i] by {}
    assert(owns_spec(record, exe, gpu_key()) == dgpu) by {
        if dgpu {
            assert(ks[0] == gpu_key());
            assert(record.keys@[0]@ == gpu_key());
        } else {
            assert forall|i: int| 0 <= i < record.keys@.len() implies #[trigger] record.keys@[i]@ != gpu_key() by {
                assert(ks[i] == record.keys@[i]@);
            }
        }
    }
    assert(owns_spec(record, exe, swap_key()) == windowed) by {
        if windowed {
            let n = ks.len() - 1;
            assert(ks[n] == swap_key());
            assert(record.keys@[n]@ == swap_key());
        } else {
            assert forall|i: int| 0 <= i < record.keys@.len() implies #[trigger] record.keys@[i]@ != swap_key() by {
                assert(ks[i] == record.keys@[i]@);
            }
        }
    }
    let e0 = parse_spec(current);
    let e1 = toggle(e0, gpu_key(), gpu_high(), dgpu, owns_spec(owned, exe, gpu_key()));
    if dgpu {
        lemma_toggle_on_sets(e0, gpu_key(), gpu_high(), owns_spec(owned, exe, gpu_key()));
        lemma_toggle_keeps_value(e1, gpu_key(), gpu_high(), swap_key(), swap_on(), windowed, owns_spec(owned, exe, swap_key()));
        lemma_set_fixed(r, gpu_key(), gpu_high());
    }
    if windowed {
        lemma_toggle_on_sets(e1, swap_key(), swap_on(), owns_spec(owned, exe, swap_key()));
        lemma_set_fixed(r, swap_key(), swap_on());
    }
}

} // verus!
