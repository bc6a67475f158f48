//! Power management around long transfers: a sleep inhibitor held exactly
//! while a transfer runs and the setting is on, and the choice of the
//! desktop interfaces that can inhibit sleep or switch the screen off. The
//! D-Bus and Win32 calls themselves are made by the app.

use vstd::prelude::*;

use crate::text::{chars_of, eq_ic, eq_ignore_case, join, join_chars, split, split_chars, string_of, views};

verus! {

/// An interface that can keep the machine awake.
#[derive(Debug, Clone, Copy, PartialEq, Eq)]
pub enum InhibitMethod {
    /// xdg-desktop-portal: the one reachable from inside Flatpak.
    Portal,
    /// org.freedesktop.ScreenSaver, the desktop's own interface.
    ScreenSaver,
    /// A systemd-logind block inhibitor.
    Logind,
}

/// The order the interfaces are tried in: inside Flatpak the portal first,
/// outside it the desktop's own interface first; logind last either way.
pub fn inhibit_order(in_flatpak: bool) -> (r: Vec<InhibitMethod>)
    ensures
        in_flatpak ==> r@ == seq![InhibitMethod::Portal, InhibitMethod::ScreenSaver, InhibitMethod::Logind],
        !in_flatpak ==> r@ == seq![InhibitMethod::ScreenSaver, InhibitMethod::Portal, InhibitMethod::Logind],
{
    let mut r: Vec<InhibitMethod> = Vec::new();
    if in_flatpak {
        r.push(InhibitMethod::Portal);
        r.push(InhibitMethod::ScreenSaver);
    } else {
        r.push(InhibitMethod::ScreenSaver);
        r.push(InhibitMethod::Portal);
    }
    r.push(InhibitMethod::Logind);
    assert(r@ =~= (if in_flatpak {
        seq![InhibitMethod::Portal, InhibitMethod::ScreenSaver, InhibitMethod::Logind]
    } else {
        seq![InhibitMethod::ScreenSaver, InhibitMethod::Portal, InhibitMethod::Logind]
    }));
    r
}

/// What the app does to the inhibitor after a sync.
#[derive(Debug, Clone, Copy, PartialEq, Eq)]
pub enum PowerAction {
    /// Try the interfaces in order; report success with `acquired`.
    Acquire,
    /// Release the held inhibitor (it is already forgotten here).
    Release,
    Nothing,
}

/// One sync: the action and whether an inhibitor is still held. Wanted
/// while a transfer runs and the setting is on; acquire when wanted and not
/// held, release (forgetting it at once) when held and not wanted.
pub open spec fn sync_step(enabled: bool, held: bool, active: bool) -> (PowerAction, bool) {
    let want = active && enabled;
    if want && !held {
        (PowerAction::Acquire, false)
    } else if !want && held {
        (PowerAction::Release, false)
    } else {
        (PowerAction::Nothing, held)
    }
}

/// Process-wide inhibitor state: the user's setting, and whether an
/// inhibitor is held.
#[derive(Debug)]
pub struct Power {
    enabled: bool,
    held: bool,
}

impl Power {
    pub closed spec fn is_enabled(&self) -> bool {
        self.enabled
    }

    pub closed spec fn holds(&self) -> bool {
        self.held
    }

    pub fn new(enabled: bool) -> (p: Power)
        ensures
            p.is_enabled() == enabled,
            !p.holds(),
    {
        Power { enabled, held: false }
    }

    /// Bring the inhibitor in line with the transfers: wanted while one runs
    /// and the setting is on. Acquire when wanted and not held, release when
    /// held and not wanted, otherwise nothing.
    pub fn sync(&mut self, transfers_active: bool) -> (a: PowerAction)
        ensures
            final(self).is_enabled() == old(self).is_enabled(),
            (a, final(self).holds()) == sync_step(old(self).is_enabled(), old(self).holds(), transfers_active),
    {
        let want = transfers_active && self.enabled;
        if want && !self.held {
            PowerAction::Acquire
        } else if !want && self.held {
            self.held = false;
            PowerAction::Release
        } else {
            PowerAction::Nothing
        }
    }

    /// The user changed the setting; the inhibitor follows at once.
    pub fn set_enabled(&mut self, enabled: bool, transfers_active: bool) -> (a: PowerAction)
        ensures
            final(self).is_enabled() == enabled,
            (a, final(self).holds()) == sync_step(enabled, old(self).holds(), transfers_active),
    {
        self.enabled = enabled;
        self.sync(transfers_active)
    }

    /// One of the interfaces granted the inhibitor.
    pub fn acquired(&mut self)
        ensures
            final(self).holds(),
            final(self).is_enabled() == old(self).is_enabled(),
    {
        self.held = true;
    }
}

/// Syncing is idempotent: once a sync's action is carried out (an
/// acquisition granted), a second sync with the same transfer activity does
/// nothing, and the inhibitor is held exactly while it is wanted.
pub proof fn lemma_sync_settles(enabled: bool, held: bool, active: bool)
    ensures
        ({
            let (a, h) = sync_step(enabled, held, active);
            let h2 = if a == PowerAction::Acquire { true } else { h };
            &&& h2 == (active && enabled)
            &&& sync_step(enabled, h2, active) == (PowerAction::Nothing, h2)
        }),
{
}

/// `XDG_CURRENT_DESKTOP` names the desktop `name`: one of its `:`-separated
/// parts, compared case-insensitively.
pub open spec fn desktop_named(var: Seq<char>, name: Seq<char>) -> bool {
    exists|i: int| 0 <= i < split(var, ':').len() && eq_ic(#[trigger] split(var, ':')[i], name)
}

pub fn desktop_is(var: &str, name: &str) -> (b: bool)
    ensures
        b == desktop_named(var@, name@),
{
    let v = chars_of(var);
    let n = chars_of(name);
    let parts = split_chars(v.as_slice(), ':');
    let mut i: usize = 0;
    while i < parts.len()
        invariant
            i <= parts@.len(),
            views(parts@) == split(var@, ':'),
            n@ == name@,
            forall|j: int| 0 <= j < i ==> !eq_ic(#[trigger] split(var@, ':')[j], name@),
        decreases parts.len() - i,
    {
        assert(split(var@, ':')[i as int] == parts@[i as int]@);
        if eq_ignore_case(parts[i].as_slice(), n.as_slice()) {
            return true;
        }
        i = i + 1;
    }
    false
}

/// Screen-off has a way to work: KDE, GNOME, or any X11 display.
pub fn screen_off_supported(current_desktop: &str, has_display: bool) -> (b: bool)
    ensures
        b == (desktop_named(current_desktop@, "KDE"@) || desktop_named(current_desktop@, "GNOME"@) || has_display),
{
    desktop_is(current_desktop, "KDE") || desktop_is(current_desktop, "GNOME") || has_display
}

/// The message of a failure after every interface was tried: their errors
/// joined, or a plain "nothing supported" when none was even available.
pub fn failure_message(errors: &[String], none_available: &str) -> (r: String)
    ensures
        errors@.len() == 0 ==> r@ == none_available@,
        errors@.len() > 0 ==> r@ == join(crate::text::string_views(errors@), "; "@),
{
    if errors.len() == 0 {
        return crate::text::to_owned_string(none_available);
    }
    let mut parts: Vec<Vec<char>> = Vec::new();
    let mut i: usize = 0;
    while i < errors.len()
        invariant
            i <= errors@.len(),
            views(parts@) == crate::text::string_views(errors@).take(i as int),
        decreases errors.len() - i,
    {
        let ghost p0 = parts@;
        let c = chars_of(errors[i].as_str());
        parts.push(c);
        proof {
            crate::text::lemma_views_push(p0, c);
        }
        assert(views(parts@) =~= crate::text::string_views(errors@).take(i + 1));
        i = i + 1;
    }
    assert(crate::text::string_views(errors@).take(i as int) =~= crate::text::string_views(errors@));
    let sep = chars_of("; ");
    let j = join_chars(parts.as_slice(), sep.as_slice());
    string_of(j.as_slice())
}

} // verus!
