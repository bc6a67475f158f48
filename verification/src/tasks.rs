//! Transfer bookkeeping that belongs to the launcher process rather than to
//! any screen: one transfer per slot (`game`, `proton`), its status through
//! start, pause, cancel, finish and a restart of the launcher.

use vstd::prelude::*;

use crate::error::AppError;
use crate::text::{chars_of, same_text, string_of};

verus! {

#[derive(Debug, Clone, Copy, PartialEq, Eq)]
pub enum TransferStatus {
    Idle,
    Running,
    Pausing,
    Cancelling,
    Paused,
    Completed,
    Error,
}

impl TransferStatus {
    /// The status as the frontend and the saved registry spell it.
    pub fn as_str(&self) -> (r: &'static str)
        ensures
            r@ == status_text(*self),
    {
        match self {
            TransferStatus::Idle => "idle",
            TransferStatus::Running => "running",
            TransferStatus::Pausing => "pausing",
            TransferStatus::Cancelling => "cancelling",
            TransferStatus::Paused => "paused",
            TransferStatus::Completed => "completed",
            TransferStatus::Error => "error",
        }
    }
}

pub open spec fn status_text(s: TransferStatus) -> Seq<char> {
    match s {
        TransferStatus::Idle => "idle"@,
        TransferStatus::Running => "running"@,
        TransferStatus::Pausing => "pausing"@,
        TransferStatus::Cancelling => "cancelling"@,
        TransferStatus::Paused => "paused"@,
        TransferStatus::Completed => "completed"@,
        TransferStatus::Error => "error"@,
    }
}

/// The status a saved registry spells, if it is one.
pub fn parse_status(s: &str) -> (r: Option<TransferStatus>)
    ensures
        match r {
            Some(st) => status_text(st) == s@,
            None => forall|st: TransferStatus| status_text(st) != s@,
        },
{
    if same_text(s, "idle") {
        Some(TransferStatus::Idle)
    } else if same_text(s, "running") {
        Some(TransferStatus::Running)
    } else if same_text(s, "pausing") {
        Some(TransferStatus::Pausing)
    } else if same_text(s, "cancelling") {
        Some(TransferStatus::Cancelling)
    } else if same_text(s, "paused") {
        Some(TransferStatus::Paused)
    } else if same_text(s, "completed") {
        Some(TransferStatus::Completed)
    } else if same_text(s, "error") {
        Some(TransferStatus::Error)
    } else {
        proof {
            reveal_strlit("idle");
            reveal_strlit("running");
            reveal_strlit("pausing");
            reveal_strlit("cancelling");
            reveal_strlit("paused");
            reveal_strlit("completed");
            reveal_strlit("error");
        }
        None
    }
}

/// Running, or on its way to stopping: work is still in flight.
pub open spec fn is_active(s: TransferStatus) -> bool {
    s == TransferStatus::Running || s == TransferStatus::Pausing || s == TransferStatus::Cancelling
}

/// Two reported stages differ.
pub open spec fn stage_differs(a: Option<String>, b: Option<String>) -> bool {
    match (a, b) {
        (Some(x), Some(y)) => x@ != y@,
        (None, None) => false,
        _ => true,
    }
}

/// One transfer. `stage` is the stage its progress last reported.
#[derive(Debug, Clone)]
pub struct Transfer {
    pub id: String,
    pub slot: String,
    pub kind: String,
    pub status: TransferStatus,
    pub game_dir: String,
    pub download_dir: String,
    pub stage: Option<String>,
    pub error: Option<String>,
    pub discard: bool,
}

/// What happens right after a stop request.
#[derive(Debug, Clone, Copy, PartialEq, Eq)]
pub enum StopAction {
    /// The worker was told to pause or cancel and will finish on its own.
    Signalled,
    /// Nothing runs: the files it left are to be discarded now, then
    /// `discard_done` records the result.
    DiscardFiles,
    /// Nothing runs and nothing is to be discarded.
    Nothing,
}

/// How the worker of a transfer ended.
#[derive(Debug, Clone)]
pub enum Outcome {
    Done,
    Cancelled,
    Failed(String),
}

impl Transfer {
    pub fn active(&self) -> (b: bool)
        ensures
            b == is_active(self.status),
    {
        match self.status {
            TransferStatus::Running | TransferStatus::Pausing | TransferStatus::Cancelling => true,
            _ => false,
        }
    }

    /// A transfer can be stopped while it runs, except while it extracts:
    /// half-extracted files cannot be resumed.
    pub open spec fn stoppable(&self) -> bool {
        is_active(self.status) && !(self.stage matches Some(s) && s@ == "extracting"@)
    }

    pub fn can_stop(&self) -> (b: bool)
        ensures
            b == self.stoppable(),
    {
        self.active() && match &self.stage {
            Some(s) => !same_text(s.as_str(), "extracting"),
            None => true,
        }
    }

    /// A new transfer, running and at its first stage.
    pub fn started(id: String, slot: String, kind: String, game_dir: String, download_dir: String) -> (t: Transfer)
        ensures
            t.status == TransferStatus::Running,
            t.id == id && t.slot == slot && t.kind == kind && t.game_dir == game_dir && t.download_dir
                == download_dir,
            t.stage matches Some(s) && s@ == "fetching"@,
            t.error is None,
            !t.discard,
    {
        Transfer {
            id,
            slot,
            kind,
            status: TransferStatus::Running,
            game_dir,
            download_dir,
            stage: Some(crate::text::to_owned_string("fetching")),
            error: None,
            discard: false,
        }
    }

    /// After a restart of the launcher nothing runs any more: a transfer that
    /// was active is paused, and kept rather than discarded.
    pub fn recover(&mut self)
        ensures
            is_active(old(self).status) ==> final(self).status == TransferStatus::Paused && !final(self).discard,
            !is_active(old(self).status) ==> *final(self) == *old(self),
            final(self).id == old(self).id && final(self).slot == old(self).slot && final(self).stage
                == old(self).stage && final(self).kind == old(self).kind,
    {
        if self.active() {
            self.status = TransferStatus::Paused;
            self.discard = false;
        }
    }

    /// New progress from the worker; ignored unless the transfer is active.
    /// Returns whether the stage changed, which is when the registry is saved
    /// at once.
    pub fn progress(&mut self, stage: Option<String>) -> (changed: bool)
        ensures
            is_active(old(self).status) ==> final(self).stage == stage && changed == stage_differs(old(self).stage, stage),
            !is_active(old(self).status) ==> *final(self) == *old(self) && !changed,
            final(self).status == old(self).status,
    {
        if !self.active() {
            return false;
        }
        let changed = match (&self.stage, &stage) {
            (Some(a), Some(b)) => !same_text(a.as_str(), b.as_str()),
            (None, None) => false,
            _ => true,
        };
        self.stage = stage;
        changed
    }

    /// A stop request: pause, or cancel and discard. Refused while the
    /// transfer extracts.
    pub fn stop(&mut self, discard: bool) -> (r: Result<StopAction, AppError>)
        ensures
            is_active(old(self).status) && !old(self).stoppable() ==> (r matches Err(AppError::Api(m))
                && m@ == "Wait for file extraction to finish"@)
                && *final(self) == *old(self),
            old(self).stoppable() ==> r == Ok::<StopAction, AppError>(StopAction::Signalled)
                && final(self).status == (if discard { TransferStatus::Cancelling } else { TransferStatus::Pausing })
                && final(self).discard == discard,
            !is_active(old(self).status) ==> r == Ok::<StopAction, AppError>(
                if discard { StopAction::DiscardFiles } else { StopAction::Nothing },
            ) && final(self).status == old(self).status && final(self).discard == discard,
            final(self).id == old(self).id && final(self).slot == old(self).slot,
    {
        if self.active() && !self.can_stop() {
            return Err(AppError::Api(crate::text::to_owned_string("Wait for file extraction to finish")));
        }
        self.discard = discard;
        if self.active() {
            self.status = if discard { TransferStatus::Cancelling } else { TransferStatus::Pausing };
            Ok(StopAction::Signalled)
        } else if discard {
            Ok(StopAction::DiscardFiles)
        } else {
            Ok(StopAction::Nothing)
        }
    }

    /// The worker of transfer `id` ended. A stale `id` changes nothing.
    /// Returns whether the files are now to be discarded (a cancel-and-discard
    /// that did not complete), after which `discard_done` records the result.
    pub fn finish(&mut self, id: &str, outcome: Outcome) -> (discard_now: bool)
        ensures
            old(self).id@ != id@ ==> *final(self) == *old(self) && !discard_now,
            old(self).id@ == id@ ==> match outcome {
                Outcome::Done => final(self).status == TransferStatus::Completed && final(self).error is None,
                Outcome::Cancelled => final(self).status == TransferStatus::Paused && final(self).error is None,
                Outcome::Failed(m) => final(self).status == TransferStatus::Error && final(self).error == Some(m),
            } && discard_now == (old(self).discard && !(outcome is Done)),
            final(self).id == old(self).id && final(self).slot == old(self).slot && final(self).discard
                == old(self).discard,
    {
        if !same_text(self.id.as_str(), id) {
            return false;
        }
        match outcome {
            Outcome::Done => {
                self.status = TransferStatus::Completed;
                self.error = None;
            },
            Outcome::Cancelled => {
                self.status = TransferStatus::Paused;
                self.error = None;
            },
            Outcome::Failed(m) => {
                self.status = TransferStatus::Error;
                self.error = Some(m);
            },
        }
        self.discard && match self.status {
            TransferStatus::Completed => false,
            _ => true,
        }
    }

    /// The discarded files are gone (`Ok`) or could not be removed.
    pub fn discard_done(&mut self, result: Result<(), String>)
        ensures
            result is Ok ==> final(self).status == TransferStatus::Idle && final(self).stage is None
                && final(self).error is None,
            result matches Err(m) ==> final(self).status == TransferStatus::Error && final(self).error == Some(m),
            final(self).id == old(self).id && final(self).slot == old(self).slot,
    {
        match result {
            Ok(()) => {
                self.status = TransferStatus::Idle;
                self.stage = None;
                self.error = None;
            },
            Err(m) => {
                self.status = TransferStatus::Error;
                self.error = Some(m);
            },
        }
    }

    /// Only the dedicated game download cache may be deleted, never an
    /// arbitrary folder: the `game` slot's directory named `_download`.
    pub fn cache_is_discardable(&self) -> (b: bool)
        ensures
            b == (self.slot@ == "game"@ && crate::diagnose::file_name_of(self.download_dir@) == Some(
                "_download"@,
            )),
    {
        same_text(self.slot.as_str(), "game") && crate::game_state::is_launcher_cache(self.download_dir.as_str())
    }
}

/// The transfer registry: at most one transfer per slot.
pub struct Transfers {
    pub tasks: Vec<Transfer>,
}

pub open spec fn slots_unique(ts: Seq<Transfer>) -> bool {
    forall|i: int, j: int| 0 <= i < j < ts.len() ==> ts[i].slot@ != ts[j].slot@
}

/// The transfer in `slot`, if any.
pub open spec fn in_slot(ts: Seq<Transfer>, slot: Seq<char>) -> Option<int> {
    if exists|i: int| 0 <= i < ts.len() && ts[i].slot@ == slot {
        Some(choose|i: int| 0 <= i < ts.len() && ts[i].slot@ == slot)
    } else {
        None
    }
}

impl Transfers {
    pub open spec fn wf(&self) -> bool {
        slots_unique(self.tasks@)
    }

    /// A registry read back after a restart: every active transfer paused.
    pub fn restored(tasks: Vec<Transfer>) -> (r: Transfers)
        requires
            slots_unique(tasks@),
        ensures
            r.wf(),
            r.tasks@.len() == tasks@.len(),
            forall|i: int| 0 <= i < tasks@.len() ==> !is_active(#[trigger] r.tasks@[i].status),
            forall|i: int| 0 <= i < tasks@.len() ==> #[trigger] r.tasks@[i].slot == tasks@[i].slot && r.tasks@[i].id
                == tasks@[i].id && r.tasks@[i].kind == tasks@[i].kind && r.tasks@[i].stage == tasks@[i].stage,
            forall|i: int|
                0 <= i < tasks@.len() && is_active(#[trigger] tasks@[i].status) ==> r.tasks@[i].status
                    == TransferStatus::Paused,
    {
        let mut out: Vec<Transfer> = Vec::new();
        let mut rest = tasks;
        let ghost orig = rest@;
        let n = rest.len();
        let mut i: usize = 0;
        while i < n
            invariant
                i <= n,
                n == orig.len(),
                rest@ == orig.skip(i as int),
                out@.len() == i,
                slots_unique(orig),
                forall|k: int| 0 <= k < i ==> !is_active(#[trigger] out@[k].status),
                forall|k: int| 0 <= k < i ==> #[trigger] out@[k].slot == orig[k].slot && out@[k].id == orig[k].id
                    && out@[k].kind == orig[k].kind && out@[k].stage == orig[k].stage,
                forall|k: int| 0 <= k < i && is_active(#[trigger] orig[k].status) ==> out@[k].status
                    == TransferStatus::Paused,
            decreases n - i,
        {
            let mut t = rest.remove(0);
            assert(t == orig[i as int]);
            let ghost t0 = t;
            assert(rest@ =~= orig.skip(i + 1));
            t.recover();
            let ghost tv = t;
            let ghost o0 = out@;
            out.push(t);
            assert(out@[i as int] == tv);
            assert forall|k: int| 0 <= k < i + 1 implies #[trigger] out@[k].slot == orig[k].slot && out@[k].id
                == orig[k].id && out@[k].kind == orig[k].kind && out@[k].stage == orig[k].stage by {
                if k < i {
                    assert(out@[k] == o0[k]);
                } else {
                    assert(tv.slot == t0.slot && tv.id == t0.id && tv.kind == t0.kind && tv.stage == t0.stage);
                }
            }
            i = i + 1;
        }
        Transfers { tasks: out }
    }

    fn find(&self, slot: &str) -> (r: Option<usize>)
        requires
            self.wf(),
        ensures
            match r {
                Some(i) => i < self.tasks@.len() && self.tasks@[i as int].slot@ == slot@,
                None => forall|i: int| 0 <= i < self.tasks@.len() ==> self.tasks@[i].slot@ != slot@,
            },
    {
        let mut i: usize = 0;
        while i < self.tasks.len()
            invariant
                i <= self.tasks@.len(),
                forall|j: int| 0 <= j < i ==> self.tasks@[j].slot@ != slot@,
            decreases self.tasks.len() - i,
        {
            if same_text(self.tasks[i].slot.as_str(), slot) {
                return Some(i);
            }
            i = i + 1;
        }
        None
    }

    /// A transfer in `slot` has work in flight.
    pub fn busy(&self, slot: &str) -> (b: bool)
        requires
            self.wf(),
        ensures
            b == exists|i: int| 0 <= i < self.tasks@.len() && self.tasks@[i].slot@ == slot@ && is_active(self.tasks@[i].status),
    {
        match self.find(slot) {
            Some(i) => self.tasks[i].active(),
            None => false,
        }
    }

    /// The transfer in `slot` was asked to pause or cancel.
    pub fn cancelled(&self, slot: &str) -> (b: bool)
        requires
            self.wf(),
        ensures
            b == exists|i: int|
                0 <= i < self.tasks@.len() && self.tasks@[i].slot@ == slot@ && (self.tasks@[i].status
                    == TransferStatus::Pausing || self.tasks@[i].status == TransferStatus::Cancelling),
    {
        match self.find(slot) {
            Some(i) => match self.tasks[i].status {
                TransferStatus::Pausing | TransferStatus::Cancelling => true,
                _ => false,
            },
            None => false,
        }
    }

    /// Start a transfer in its slot, replacing a finished one; refused while
    /// the slot is busy.
    pub fn begin(&mut self, task: Transfer) -> (r: Result<(), AppError>)
        requires
            old(self).wf(),
            task.status == TransferStatus::Running,
        ensures
            final(self).wf(),
            r is Err <==> exists|i: int|
                0 <= i < old(self).tasks@.len() && old(self).tasks@[i].slot@ == task.slot@ && is_active(
                    old(self).tasks@[i].status,
                ),
            r is Err ==> final(self).tasks@ == old(self).tasks@ && (r matches Err(AppError::Api(m))
                && m@ == "A transfer is already running"@),
            r is Ok ==> (exists|i: int|
                0 <= i < old(self).tasks@.len() && old(self).tasks@[i].slot@ == task.slot@ && final(self).tasks@
                    == old(self).tasks@.update(i, task)) || ((forall|i: int|
                0 <= i < old(self).tasks@.len() ==> old(self).tasks@[i].slot@ != task.slot@) && final(self).tasks@
                == old(self).tasks@.push(task)),
            r is Ok ==> exists|i: int| 0 <= i < final(self).tasks@.len() && final(self).tasks@[i] == task,
    {
        match self.find(task.slot.as_str()) {
            Some(i) => {
                if self.tasks[i].active() {
                    return Err(AppError::Api(crate::text::to_owned_string("A transfer is already running")));
                }
                let ghost before = self.tasks@;
                self.tasks.set(i, task);
                assert(self.tasks@[i as int] == task);
                assert forall|a: int, b: int| 0 <= a < b < self.tasks@.len() implies self.tasks@[a].slot@
                    != self.tasks@[b].slot@ by {
                    if a != i && b != i {
                        assert(self.tasks@[a] == before[a] && self.tasks@[b] == before[b]);
                    }
                }
                Ok(())
            },
            None => {
                let ghost before = self.tasks@;
                self.tasks.push(task);
                assert(self.tasks@[before.len() as int] == task);
                assert forall|a: int, b: int| 0 <= a < b < self.tasks@.len() implies self.tasks@[a].slot@
                    != self.tasks@[b].slot@ by {
                    if b < before.len() {
                        assert(self.tasks@[a] == before[a] && self.tasks@[b] == before[b]);
                    } else {
                        assert(self.tasks@[a] == before[a]);
                    }
                }
                Ok(())
            },
        }
    }
}

/// A slot that a transfer was begun in is busy: whatever `begin` did with
/// the registry on success (the transfer put in its slot's place, or
/// added), the registry then holds an active transfer in that slot, so
/// `busy` reports it and a second `begin` there is refused.
pub proof fn lemma_begun_is_busy(before: Seq<Transfer>, after: Seq<Transfer>, task: Transfer)
    requires
        task.status == TransferStatus::Running,
        (exists|i: int| 0 <= i < before.len() && before[i].slot@ == task.slot@ && after == before.update(i, task))
            || after == before.push(task),
    ensures
        exists|i: int| 0 <= i < after.len() && after[i].slot@ == task.slot@ && is_active(after[i].status),
{
    if after == before.push(task) {
        assert(after[before.len() as int] == task);
    } else {
        let i = choose|i: int| 0 <= i < before.len() && before[i].slot@ == task.slot@ && after == before.update(i, task);
        assert(after[i] == task);
    }
}

} // verus!
