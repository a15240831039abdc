use vstd::prelude::*;

use crate::court::{find_id, CacheRegistry};
use crate::executor::{result_of, RemovalOutcome};
use crate::ledger::{has_warrant, result_text, AuditLedger, ExecutionEventEntry, ExecutionResult, WarrantEntry};
use crate::ledger::basename;
use crate::ledger::basename_of;
use crate::naming::{is_owned_name, FileOrigin, NamingContract};
use crate::text::{chars_of, decimal, decimal_chars, push_chars, push_text, same_text, string_of};

verus! {

/// Counts of what a startup cleanup did.
#[derive(Debug, Clone)]
pub struct JanitorReport {
    pub zombies_recovered: usize,
    pub ghosts_deleted: usize,
    pub ghosts_protected: usize,
    pub aliens_protected: usize,
    pub ghost_cleanup_errors: usize,
}

/// The summary line of a report.
pub open spec fn summary_of(r: JanitorReport) -> Seq<char> {
    "Janitor Report: "@ + decimal(r.zombies_recovered as nat) + " zombies recovered, "@
        + decimal(r.ghosts_deleted as nat) + " ghosts deleted, "@ + decimal(r.ghosts_protected as nat)
        + " protected, "@ + decimal(r.aliens_protected as nat) + " alien protected, "@ + decimal(
        r.ghost_cleanup_errors as nat,
    ) + " errors"@
}

impl JanitorReport {
    /// A report with all counts zero.
    pub fn new() -> (r: JanitorReport)
        ensures
            r.zombies_recovered == 0,
            r.ghosts_deleted == 0,
            r.ghosts_protected == 0,
            r.aliens_protected == 0,
            r.ghost_cleanup_errors == 0,
    {
        JanitorReport {
            zombies_recovered: 0,
            ghosts_deleted: 0,
            ghosts_protected: 0,
            aliens_protected: 0,
            ghost_cleanup_errors: 0,
        }
    }

    pub open spec fn is_successful_spec(&self) -> bool {
        self.ghost_cleanup_errors == 0
    }

    /// Startup may proceed iff no ghost cleanup failed.
    pub fn is_successful(&self) -> (r: bool)
        ensures
            r == self.is_successful_spec(),
    {
        self.ghost_cleanup_errors == 0
    }

    /// One line with every count.
    pub fn summary(&self) -> (r: String)
        ensures
            r@ == summary_of(*self),
    {
        let mut v = chars_of("Janitor Report: ");
        push_chars(&mut v, &decimal_chars(self.zombies_recovered as u64));
        push_text(&mut v, " zombies recovered, ");
        push_chars(&mut v, &decimal_chars(self.ghosts_deleted as u64));
        push_text(&mut v, " ghosts deleted, ");
        push_chars(&mut v, &decimal_chars(self.ghosts_protected as u64));
        push_text(&mut v, " protected, ");
        push_chars(&mut v, &decimal_chars(self.aliens_protected as u64));
        push_text(&mut v, " alien protected, ");
        push_chars(&mut v, &decimal_chars(self.ghost_cleanup_errors as u64));
        push_text(&mut v, " errors");
        proof {
            assert(v@ =~= summary_of(*self));
        }
        string_of(&v)
    }
}

/// Why startup cleanup failed, or why one removal did.
#[derive(Debug)]
pub enum JanitorError {
    LedgerCorrupted(String),
    LedgerQueryFailed(String),
    LedgerRecordFailed(String),
    FileNotFound(String),
    PermissionDenied(String),
    IoError(String),
    FileLocked(String),
    ScanFailed(String),
}

impl JanitorError {
    /// A one-line description.
    pub fn message(&self) -> (r: String) {
        let (head, detail) = match self {
            JanitorError::LedgerCorrupted(m) => ("Ledger corrupted: ", m),
            JanitorError::LedgerQueryFailed(m) => ("Ledger query failed: ", m),
            JanitorError::LedgerRecordFailed(m) => ("Failed to record to ledger: ", m),
            JanitorError::FileNotFound(m) => ("File not found: ", m),
            JanitorError::PermissionDenied(m) => ("Permission denied: ", m),
            JanitorError::IoError(m) => ("I/O error: ", m),
            JanitorError::FileLocked(m) => ("File locked: ", m),
            JanitorError::ScanFailed(m) => ("Scan failed: ", m),
        };
        let mut v = chars_of(head);
        push_text(&mut v, detail.as_str());
        string_of(&v)
    }
}

/// What the ghost sweep does with one basename of the cache directory.
#[derive(Debug, Clone, Copy, PartialEq, Eq, Structural)]
pub enum SweepDecision {
    /// Not cache-produced: never touched.
    ProtectAlien,
    /// Cache-produced and registered: a live entry.
    ProtectRegistered,
    /// Cache-produced and unregistered: journal a warrant, then remove.
    DeleteGhost,
}

pub open spec fn sweep_decision_of(name: Seq<char>, registry: CacheRegistry) -> SweepDecision {
    if !is_owned_name(name) {
        SweepDecision::ProtectAlien
    } else if find_id(registry.spec_entries(), name).is_some() {
        SweepDecision::ProtectRegistered
    } else {
        SweepDecision::DeleteGhost
    }
}

/// The nonce of the warrant journaled for a ghost found at `now`.
pub open spec fn ghost_nonce_of(name: Seq<char>, now: u64) -> Seq<char> {
    "GHOST_CLEANUP_"@ + decimal(now as nat) + "_"@ + name
}

/// Startup reconciliation of the journal and the cache directory. It runs
/// linearly: integrity check, zombie recovery, ghost sweep. The directory
/// scan and the removals are made by its host; every decision is made here.
pub struct Janitor {
    cache_dir: String,
}

impl Janitor {
    pub closed spec fn spec_cache_dir(&self) -> Seq<char> {
        self.cache_dir@
    }

    pub fn new(cache_dir: String) -> (r: Janitor)
        ensures
            r.spec_cache_dir() == cache_dir@,
    {
        Janitor { cache_dir }
    }

    /// The cache directory this janitor sweeps.
    pub fn cache_dir(&self) -> (r: &String)
        ensures
            r@ == self.spec_cache_dir(),
    {
        &self.cache_dir
    }

    /// The first step: a journal that fails its integrity check stops
    /// startup; nothing is repaired.
    pub fn check_ledger(&self, ledger: &AuditLedger) -> (r: Result<(), JanitorError>)
        ensures
            r.is_ok() <==> crate::ledger::integrity_holds(ledger.spec_warrants(), ledger.spec_events()),
            r.is_err() ==> r matches Err(JanitorError::LedgerCorrupted(_)),
    {
        match ledger.verify_integrity() {
            Ok(()) => Ok(()),
            Err(_) => Err(
                JanitorError::LedgerCorrupted(
                    String::from_str("Ledger integrity check failed: orphaned execution events"),
                ),
            ),
        }
    }

    /// Decides the fate of one basename found in the cache directory.
    pub fn sweep_decision(&self, file_name: &str, registry: &CacheRegistry) -> (r: SweepDecision)
        ensures
            r == sweep_decision_of(file_name@, *registry),
    {
        if NamingContract::classify(file_name) != FileOrigin::Owned {
            return SweepDecision::ProtectAlien;
        }
        let entries = registry.entries();
        let mut i: usize = 0;
        while i < entries.len()
            invariant
                entries@ == registry.spec_entries(),
                is_owned_name(file_name@),
                i <= entries@.len(),
                forall|k: int| 0 <= k < i ==> (#[trigger] entries@[k]).file_id@ != file_name@,
            decreases entries@.len() - i,
        {
            if same_text(entries[i].file_id.as_str(), file_name) {
                assert(find_id(registry.spec_entries(), file_name@).is_some()) by {
                    assert(registry.spec_entries()[i as int].file_id@ == file_name@);
                }
                return SweepDecision::ProtectRegistered;
            }
            i = i + 1;
        }
        SweepDecision::DeleteGhost
    }

    /// Counts a protected basename in the report.
    pub fn note_protected(&self, decision: SweepDecision, report: &mut JanitorReport)
        requires
            old(report).aliens_protected < usize::MAX,
            old(report).ghosts_protected < usize::MAX,
        ensures
            decision == SweepDecision::ProtectAlien ==> final(report).aliens_protected == old(report).aliens_protected + 1
                && final(report).ghosts_protected == old(report).ghosts_protected,
            decision == SweepDecision::ProtectRegistered ==> final(report).ghosts_protected == old(report).ghosts_protected + 1
                && final(report).aliens_protected == old(report).aliens_protected,
            decision == SweepDecision::DeleteGhost ==> *final(report) == *old(report),
            final(report).zombies_recovered == old(report).zombies_recovered,
            final(report).ghosts_deleted == old(report).ghosts_deleted,
            final(report).ghost_cleanup_errors == old(report).ghost_cleanup_errors,
    {
        match decision {
            SweepDecision::ProtectAlien => report.aliens_protected = report.aliens_protected + 1,
            SweepDecision::ProtectRegistered => report.ghosts_protected = report.ghosts_protected + 1,
            SweepDecision::DeleteGhost => {},
        }
    }

    /// A basename that is not valid UTF-8 is never cache-produced: it is
    /// counted as an alien file and left alone.
    pub fn note_unreadable_name(&self, report: &mut JanitorReport)
        requires
            old(report).aliens_protected < usize::MAX,
        ensures
            final(report).aliens_protected == old(report).aliens_protected + 1,
            final(report).ghosts_protected == old(report).ghosts_protected,
            final(report).zombies_recovered == old(report).zombies_recovered,
            final(report).ghosts_deleted == old(report).ghosts_deleted,
            final(report).ghost_cleanup_errors == old(report).ghost_cleanup_errors,
    {
        report.aliens_protected = report.aliens_protected + 1;
    }

    /// A pending warrant that recovery refuses to carry out (its target is
    /// outside the naming contract) is an error: startup does not proceed.
    pub fn note_refused_zombie(&self, report: &mut JanitorReport)
        requires
            old(report).ghost_cleanup_errors < usize::MAX,
        ensures
            final(report).ghost_cleanup_errors == old(report).ghost_cleanup_errors + 1,
            !final(report).is_successful_spec(),
            final(report).aliens_protected == old(report).aliens_protected,
            final(report).ghosts_protected == old(report).ghosts_protected,
            final(report).zombies_recovered == old(report).zombies_recovered,
            final(report).ghosts_deleted == old(report).ghosts_deleted,
    {
        report.ghost_cleanup_errors = report.ghost_cleanup_errors + 1;
    }

    /// Journals a hard-delete warrant for the ghost `file_name` found at
    /// `now`, before anything is removed. Returns the warrant's nonce; on a
    /// refusal nothing may be removed.
    pub fn admit_ghost(&self, ledger: &mut AuditLedger, file_name: &str, now: u64) -> (r: Result<String, JanitorError>)
        ensures
            r.is_ok() <==> (is_owned_name(basename(file_name@)) && !old(ledger).quiesced_for(file_name@, now)
                && !has_warrant(old(ledger).spec_warrants(), ghost_nonce_of(file_name@, now))),
            r matches Ok(n) ==> n@ == ghost_nonce_of(file_name@, now),
            r.is_ok() ==> {
                let ws = final(ledger).spec_warrants();
                &&& ws.len() == old(ledger).spec_warrants().len() + 1
                &&& ws.drop_last() == old(ledger).spec_warrants()
                &&& ws.last().nonce@ == ghost_nonce_of(file_name@, now)
                &&& ws.last().target_path@ == file_name@
                &&& ws.last().action@ == "HARD_DELETE"@
                &&& ws.last().issued_at_unix == now
                &&& has_warrant(ws, ghost_nonce_of(file_name@, now))
                &&& final(ledger).spec_events() == old(ledger).spec_events()
                &&& final(ledger).spec_quiesce() == old(ledger).spec_quiesce()
            },
            r.is_err() ==> *final(ledger) == *old(ledger),
            r.is_err() ==> r matches Err(JanitorError::LedgerRecordFailed(_)),
    {
        let mut nonce = chars_of("GHOST_CLEANUP_");
        push_chars(&mut nonce, &decimal_chars(now));
        push_text(&mut nonce, "_");
        push_text(&mut nonce, file_name);
        proof {
            assert(nonce@ =~= ghost_nonce_of(file_name@, now));
        }
        let warrant = WarrantEntry {
            nonce: string_of(&nonce),
            issued_at_unix: now,
            target_path: string_of(&chars_of(file_name)),
            action: String::from_str("HARD_DELETE"),
            signature: Vec::new(),
            court_version: String::from_str("janitor"),
        };
        proof {
            reveal_strlit("HARD_DELETE");
        }
        let ghost old_ws = ledger.spec_warrants();
        match ledger.append_warrant(warrant, now) {
            Ok(_) => {
                let n = string_of(&nonce);
                proof {
                    let ws = ledger.spec_warrants();
                    assert(ws.drop_last() =~= old_ws);
                    assert(ws[ws.len() - 1].nonce@ == n@);
                }
                Ok(n)
            },
            Err(_) => Err(JanitorError::LedgerRecordFailed(String::from_str("Failed to journal ghost warrant"))),
        }
    }

    /// Records how the removal of a journaled target ended, under
    /// `executor_id` at `now`: removed or not found is success, anything else
    /// is recorded as a failure and leaves the warrant pending.
    fn record_outcome(
        &self,
        ledger: &mut AuditLedger,
        nonce: &String,
        executor_id: &str,
        outcome: RemovalOutcome,
        now: u64,
    ) -> (r: Result<(), JanitorError>)
        ensures
            r.is_ok() <==> has_warrant(old(ledger).spec_warrants(), nonce@),
            r.is_err() ==> *final(ledger) == *old(ledger),
            r.is_ok() ==> final(ledger).spec_events().drop_last() == old(ledger).spec_events()
                && final(ledger).spec_events().len() == old(ledger).spec_events().len() + 1
                && final(ledger).spec_events().last().warrant_nonce@ == nonce@
                && final(ledger).spec_events().last().result@ == result_text(result_of(outcome))
                && final(ledger).spec_warrants() == old(ledger).spec_warrants(),
    {
        let (result, errno) = match outcome {
            RemovalOutcome::Removed => (ExecutionResult::Success, None),
            RemovalOutcome::NotFound => (ExecutionResult::Success, None),
            RemovalOutcome::PermissionDenied { errno } => (ExecutionResult::FailPermission, errno),
            RemovalOutcome::Locked { errno } => (ExecutionResult::FailLocked, errno),
            RemovalOutcome::Failed { errno } => (ExecutionResult::FailIo, errno),
        };
        let event = ExecutionEventEntry {
            id: 0,
            warrant_nonce: nonce.clone(),
            executed_at_unix: now,
            executor_id: string_of(&chars_of(executor_id)),
            result: string_of(&chars_of(result.as_str())),
            errno,
        };
        proof {
            reveal_strlit("SUCCESS");
            reveal_strlit("FAIL_PERMISSION");
            reveal_strlit("FAIL_IO");
            reveal_strlit("FAIL_LOCKED");
        }
        match ledger.record_execution(event) {
            Ok(()) => Ok(()),
            Err(_) => Err(JanitorError::LedgerRecordFailed(String::from_str("Failed to record execution"))),
        }
    }

    /// Zombie recovery for one pending warrant: records the outcome of
    /// removing its target and counts a recovery when the target is gone.
    /// A journal write that fails stops startup.
    pub fn record_zombie_outcome(
        &self,
        ledger: &mut AuditLedger,
        report: &mut JanitorReport,
        warrant: &WarrantEntry,
        outcome: RemovalOutcome,
        now: u64,
    ) -> (r: Result<(), JanitorError>)
        requires
            old(report).zombies_recovered < usize::MAX,
        ensures
            r.is_ok() <==> has_warrant(old(ledger).spec_warrants(), warrant.nonce@),
            r.is_err() ==> *final(ledger) == *old(ledger),
            r.is_ok() ==> final(ledger).spec_events().drop_last() == old(ledger).spec_events()
                && final(ledger).spec_events().last().warrant_nonce@ == warrant.nonce@
                && final(ledger).spec_events().last().result@ == result_text(result_of(outcome)),
            final(report).zombies_recovered == old(report).zombies_recovered + if r.is_ok()
                && result_of(outcome) == ExecutionResult::Success {
                1int
            } else {
                0int
            },
            final(report).ghosts_deleted == old(report).ghosts_deleted,
            final(report).ghost_cleanup_errors == old(report).ghost_cleanup_errors,
            final(report).ghosts_protected == old(report).ghosts_protected,
            final(report).aliens_protected == old(report).aliens_protected,
    {
        let r = self.record_outcome(ledger, &warrant.nonce, "JANITOR_RECOVERY", outcome, now);
        if r.is_ok() {
            match outcome {
                RemovalOutcome::Removed | RemovalOutcome::NotFound => {
                    report.zombies_recovered = report.zombies_recovered + 1;
                },
                _ => {},
            }
        }
        r
    }

    /// Ghost sweep for one journaled ghost: records the outcome of removing
    /// it and counts a deletion or a cleanup error. A removal that failed, or
    /// a journal write that failed, counts as an error.
    pub fn record_ghost_outcome(
        &self,
        ledger: &mut AuditLedger,
        report: &mut JanitorReport,
        nonce: &String,
        outcome: RemovalOutcome,
        now: u64,
    )
        requires
            old(report).ghosts_deleted < usize::MAX,
            old(report).ghost_cleanup_errors < usize::MAX,
        ensures
            has_warrant(old(ledger).spec_warrants(), nonce@) ==> final(ledger).spec_events().drop_last()
                == old(ledger).spec_events() && final(ledger).spec_events().last().warrant_nonce@ == nonce@
                && final(ledger).spec_events().last().result@ == result_text(result_of(outcome)),
            !has_warrant(old(ledger).spec_warrants(), nonce@) ==> *final(ledger) == *old(ledger),
            (outcome == RemovalOutcome::Removed || outcome == RemovalOutcome::NotFound) && has_warrant(
                old(ledger).spec_warrants(),
                nonce@,
            ) ==> final(report).ghosts_deleted == old(report).ghosts_deleted + 1
                && final(report).ghost_cleanup_errors == old(report).ghost_cleanup_errors,
            !((outcome == RemovalOutcome::Removed || outcome == RemovalOutcome::NotFound) && has_warrant(
                old(ledger).spec_warrants(),
                nonce@,
            )) ==> final(report).ghosts_deleted == old(report).ghosts_deleted
                && final(report).ghost_cleanup_errors == old(report).ghost_cleanup_errors + 1,
            final(report).zombies_recovered == old(report).zombies_recovered,
            final(report).ghosts_protected == old(report).ghosts_protected,
            final(report).aliens_protected == old(report).aliens_protected,
    {
        let r = self.record_outcome(ledger, nonce, "JANITOR_GHOST_CLEANUP", outcome, now);
        let removed = match outcome {
            RemovalOutcome::Removed | RemovalOutcome::NotFound => true,
            _ => false,
        };
        if r.is_ok() && removed {
            report.ghosts_deleted = report.ghosts_deleted + 1;
        } else {
            report.ghost_cleanup_errors = report.ghost_cleanup_errors + 1;
        }
    }
}

/// What zombie recovery does with one journaled warrant.
#[derive(Debug, Clone, Copy, PartialEq, Eq, Structural)]
pub enum ZombieStep {
    /// Remove the target, then record the outcome.
    RemoveTarget,
    /// A soft delete: nothing on disk; record success.
    RecordOnly,
    /// Not a pending warrant for a cache-produced file: touch nothing.
    Refuse,
}

/// The step zombie recovery takes for `w` against `ledger`.
pub open spec fn zombie_step_of(ledger: AuditLedger, w: WarrantEntry) -> ZombieStep {
    if !ledger.pending(w.nonce@) || !is_owned_name(basename(w.target_path@)) {
        ZombieStep::Refuse
    } else if w.action@ == "HARD_DELETE"@ {
        ZombieStep::RemoveTarget
    } else {
        ZombieStep::RecordOnly
    }
}

impl Janitor {
    /// Decides how to complete a warrant found pending at startup. Only a
    /// pending hard-delete warrant whose target basename is cache-produced
    /// leads to a removal.
    pub fn plan_zombie(&self, ledger: &AuditLedger, warrant: &WarrantEntry) -> (r: ZombieStep)
        ensures
            r == zombie_step_of(*ledger, *warrant),
            r == ZombieStep::RemoveTarget ==> ledger.pending(warrant.nonce@) && is_owned_name(
                basename(warrant.target_path@),
            ),
    {
        let journaled = {
            let ws = ledger.all_warrants();
            let mut found = false;
            let mut i: usize = 0;
            while i < ws.len()
                invariant
                    ws@ == ledger.spec_warrants(),
                    i <= ws@.len(),
                    found == exists|k: int| 0 <= k < i && (#[trigger] ws@[k]).nonce@ == warrant.nonce@,
                decreases ws@.len() - i,
            {
                if same_text(ws[i].nonce.as_str(), warrant.nonce.as_str()) {
                    found = true;
                }
                i = i + 1;
            }
            found
        };
        if !journaled || ledger.is_warrant_executed(warrant.nonce.as_str()) {
            return ZombieStep::Refuse;
        }
        let base = basename_of(warrant.target_path.as_str());
        if NamingContract::classify(base.as_str()) != FileOrigin::Owned {
            return ZombieStep::Refuse;
        }
        if same_text(warrant.action.as_str(), "HARD_DELETE") {
            ZombieStep::RemoveTarget
        } else {
            ZombieStep::RecordOnly
        }
    }
}

/// The basenames that a sweep over `names` leaves on disk when every
/// removal it asks for succeeds.
pub open spec fn after_sweep(names: Seq<Seq<char>>, registry: CacheRegistry) -> Seq<Seq<char>> {
    names.filter(|n: Seq<char>| sweep_decision_of(n, registry) != SweepDecision::DeleteGhost)
}

/// The ghost sweep is idempotent on a quiescent system: once a sweep over
/// `names` has removed its ghosts, a second sweep with the registry unchanged
/// finds no ghost, leaves the same names, and protects each as before.
pub proof fn lemma_sweep_idempotent(names: Seq<Seq<char>>, registry: CacheRegistry)
    ensures
        forall|i: int|
            0 <= i < after_sweep(names, registry).len() ==> sweep_decision_of(
                #[trigger] after_sweep(names, registry)[i],
                registry,
            ) != SweepDecision::DeleteGhost,
        after_sweep(after_sweep(names, registry), registry) == after_sweep(names, registry),
{
    let rest = after_sweep(names, registry);
    let pred = |n: Seq<char>| sweep_decision_of(n, registry) != SweepDecision::DeleteGhost;
    names.filter_lemma(pred);
    rest.filter_lemma(pred);
    lemma_filter_all(rest, pred);
}

proof fn lemma_filter_all(s: Seq<Seq<char>>, pred: spec_fn(Seq<char>) -> bool)
    requires
        forall|i: int| 0 <= i < s.len() ==> pred(#[trigger] s[i]),
    ensures
        s.filter(pred) == s,
    decreases s.len(),
{
    reveal_with_fuel(Seq::filter, 1);
    if s.len() > 0 {
        lemma_filter_all(s.drop_last(), pred);
        assert(s.drop_last().push(s.last()) =~= s);
    } else {
        assert(s.filter(pred) =~= s);
    }
}

/// A basename holds no path separator, so its basename is itself.
pub proof fn lemma_basename_of_plain_name(s: Seq<char>)
    requires
        forall|i: int| 0 <= i < s.len() ==> #[trigger] s[i] != '/' && s[i] != '\\',
    ensures
        basename(s) == s,
    decreases s.len(),
{
    if s.len() > 0 {
        lemma_basename_of_plain_name(s.drop_last());
        assert(s.drop_last().push(s.last()) =~= s);
    }
}

/// Zombie recovery is idempotent: once a success event is journaled for a
/// pending warrant, the warrant is no longer pending, so a second recovery
/// does not see it.
pub proof fn lemma_recovery_idempotent(before: AuditLedger, after: AuditLedger, nonce: Seq<char>)
    requires
        after.spec_warrants() == before.spec_warrants(),
        after.spec_events().drop_last() == before.spec_events(),
        after.spec_events().len() == before.spec_events().len() + 1,
        after.spec_events().last().warrant_nonce@ == nonce,
        after.spec_events().last().result@ == "SUCCESS"@,
    ensures
        !after.pending(nonce),
        forall|other: Seq<char>| #[trigger] before.committed(other) ==> after.committed(other),
{
    let n = after.spec_events().len() - 1;
    assert(after.spec_events()[n].warrant_nonce@ == nonce);
    assert forall|other: Seq<char>| #[trigger] before.committed(other) implies after.committed(other) by {
        let k = choose|k: int|
            0 <= k < before.spec_events().len() && (#[trigger] before.spec_events()[k]).warrant_nonce@ == other
                && before.spec_events()[k].result@ == "SUCCESS"@;
        assert(after.spec_events()[k] == before.spec_events()[k]);
    }
}

} // verus!
