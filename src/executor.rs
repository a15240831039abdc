use vstd::prelude::*;

use crate::court::{find_id, CacheRegistry, EvictionAction};
use crate::ledger::{basename, basename_of, result_text, AuditLedger, ExecutionEventEntry, ExecutionResult};
use crate::naming::{is_owned_name, FileOrigin, NamingContract};
use crate::text::{same_text, string_of, chars_of};
use crate::warrant::{
    fnv1a, hash_file_id, warrant_id_of, ExecutionError, ExecutionReport, ExecutionWarrant,
    QuiesceSignal,
};
use vstd::string::*;
use vstd::utf8::encode_utf8;

verus! {

/// How an attempt to remove a file from disk ended.
#[derive(Debug, Clone, Copy, PartialEq, Eq, Structural)]
pub enum RemovalOutcome {
    /// The file was removed.
    Removed,
    /// There was no such file: it is absent either way.
    NotFound,
    PermissionDenied { errno: Option<i32> },
    Locked { errno: Option<i32> },
    Failed { errno: Option<i32> },
}

/// What to do with a warrant, decided before any filesystem work.
#[derive(Debug, Clone)]
pub enum ExecutionStep {
    /// Already committed: report success, do nothing.
    AlreadyCommitted,
    /// Do not execute; fail with this error.
    Refuse(ExecutionError),
    /// Remove from the registry only; no filesystem work.
    SoftDelete,
    /// Remove the target file, then record the outcome.
    RemoveFile,
}

/// The journal's action text for an action.
pub open spec fn action_text(a: EvictionAction) -> Seq<char> {
    match a {
        EvictionAction::HardDelete => "HARD_DELETE"@,
        EvictionAction::SoftDelete => "SOFT_DELETE"@,
        _ => Seq::empty(),
    }
}

/// The journal holds a warrant with this warrant's id, target and action.
pub open spec fn journaled(ledger: AuditLedger, w: ExecutionWarrant) -> bool {
    exists|i: int|
        0 <= i < ledger.spec_warrants().len()
            && (#[trigger] ledger.spec_warrants()[i]).nonce@ == warrant_id_of(w.nonce)
            && ledger.spec_warrants()[i].target_path@ == w.verdict.file_id@
            && ledger.spec_warrants()[i].action@ == action_text(w.verdict.action)
}

/// The quiesce signal suspends this warrant's target at `now`.
pub open spec fn suspended(q: QuiesceSignal, w: ExecutionWarrant, now: u64) -> bool {
    q.spec_applies_to(fnv1a(encode_utf8(w.verdict.file_id@))) && !q.spec_expired_at(now)
}

/// The result journaled for a removal outcome.
pub open spec fn result_of(o: RemovalOutcome) -> ExecutionResult {
    match o {
        RemovalOutcome::Removed | RemovalOutcome::NotFound => ExecutionResult::Success,
        RemovalOutcome::PermissionDenied { .. } => ExecutionResult::FailPermission,
        RemovalOutcome::Locked { .. } => ExecutionResult::FailLocked,
        RemovalOutcome::Failed { .. } => ExecutionResult::FailIo,
    }
}

pub open spec fn errno_of(o: RemovalOutcome) -> Option<i32> {
    match o {
        RemovalOutcome::Removed | RemovalOutcome::NotFound => None,
        RemovalOutcome::PermissionDenied { errno } => errno,
        RemovalOutcome::Locked { errno } => errno,
        RemovalOutcome::Failed { errno } => errno,
    }
}

/// The only component that drives destructive work. It decides each step
/// against the journal and records every outcome there; the filesystem call
/// itself is made by its host between `plan` and `complete_removal`.
pub struct FilesystemExecutioner {
    executor_id: String,
}

impl FilesystemExecutioner {
    pub closed spec fn spec_executor_id(&self) -> Seq<char> {
        self.executor_id@
    }

    pub fn new(executor_id: String) -> (r: FilesystemExecutioner)
        ensures
            r.spec_executor_id() == executor_id@,
    {
        FilesystemExecutioner { executor_id }
    }

    fn find_journaled(ledger: &AuditLedger, warrant: &ExecutionWarrant, id: &String) -> (r: bool)
        requires
            id@ == warrant_id_of(warrant.nonce),
        ensures
            r == journaled(*ledger, *warrant),
    {
        let ws = ledger.all_warrants();
        let action = match warrant.verdict.action {
            EvictionAction::HardDelete => "HARD_DELETE",
            EvictionAction::SoftDelete => "SOFT_DELETE",
            _ => "",
        };
        proof {
            reveal_strlit("");
        }
        assert(action@ == action_text(warrant.verdict.action));
        let mut i: usize = 0;
        while i < ws.len()
            invariant
                ws@ == ledger.spec_warrants(),
                i <= ws@.len(),
                id@ == warrant_id_of(warrant.nonce),
                action@ == action_text(warrant.verdict.action),
                forall|k: int|
                    0 <= k < i ==> !((#[trigger] ws@[k]).nonce@ == warrant_id_of(warrant.nonce)
                        && ws@[k].target_path@ == warrant.verdict.file_id@ && ws@[k].action@
                        == action_text(warrant.verdict.action)),
            decreases ws@.len() - i,
        {
            let w = &ws[i];
            if same_text(w.nonce.as_str(), id.as_str()) && same_text(
                w.target_path.as_str(),
                warrant.verdict.file_id.as_str(),
            ) && same_text(w.action.as_str(), action) {
                return true;
            }
            i = i + 1;
        }
        false
    }

    /// Decides what to do with `warrant` at `now`, in this order:
    /// committed already: nothing (success); not journaled with this target
    /// and action: refuse (`WarrantNotInLedger`); target suspended by
    /// `quiesce`: refuse (`SystemQuiesced`); basename not cache-produced:
    /// refuse (`PermissionDenied`) without touching anything; a soft delete:
    /// registry only; a hard delete: remove the file; any other action:
    /// refuse (`IoError`).
    pub fn plan(
        &self,
        ledger: &AuditLedger,
        warrant: &ExecutionWarrant,
        quiesce: &QuiesceSignal,
        now: u64,
    ) -> (r: ExecutionStep)
        ensures
            ledger.committed(warrant_id_of(warrant.nonce)) <==> r is AlreadyCommitted,
            !ledger.committed(warrant_id_of(warrant.nonce)) && !journaled(*ledger, *warrant) ==> r
                matches ExecutionStep::Refuse(ExecutionError::WarrantNotInLedger),
            !ledger.committed(warrant_id_of(warrant.nonce)) && journaled(*ledger, *warrant)
                && suspended(*quiesce, *warrant, now) ==> r matches ExecutionStep::Refuse(
                ExecutionError::SystemQuiesced,
            ),
            !ledger.committed(warrant_id_of(warrant.nonce)) && journaled(*ledger, *warrant)
                && !suspended(*quiesce, *warrant, now) && !is_owned_name(
                basename(warrant.verdict.file_id@),
            ) ==> r matches ExecutionStep::Refuse(ExecutionError::PermissionDenied),
            !ledger.committed(warrant_id_of(warrant.nonce)) && journaled(*ledger, *warrant)
                && !suspended(*quiesce, *warrant, now) && is_owned_name(
                basename(warrant.verdict.file_id@),
            ) ==> match warrant.verdict.action {
                EvictionAction::SoftDelete => r is SoftDelete,
                EvictionAction::HardDelete => r is RemoveFile,
                _ => r matches ExecutionStep::Refuse(ExecutionError::IoError(_)),
            },
            // no removal without a matching pending warrant, and never of a
            // basename outside the naming contract
            r is RemoveFile ==> ledger.pending(warrant_id_of(warrant.nonce)) && journaled(
                *ledger,
                *warrant,
            ) && is_owned_name(basename(warrant.verdict.file_id@))
                && warrant.verdict.action == EvictionAction::HardDelete,
    {
        let id = warrant.warrant_id();
        if ledger.is_warrant_executed(id.as_str()) {
            return ExecutionStep::AlreadyCommitted;
        }
        if !Self::find_journaled(ledger, warrant, &id) {
            return ExecutionStep::Refuse(ExecutionError::WarrantNotInLedger);
        }
        proof {
            let i = choose|i: int|
                0 <= i < ledger.spec_warrants().len()
                    && (#[trigger] ledger.spec_warrants()[i]).nonce@ == warrant_id_of(warrant.nonce)
                    && ledger.spec_warrants()[i].target_path@ == warrant.verdict.file_id@
                    && ledger.spec_warrants()[i].action@ == action_text(warrant.verdict.action);
            assert(ledger.spec_warrants()[i].nonce@ == warrant_id_of(warrant.nonce));
        }
        let h = hash_file_id(warrant.verdict.file_id.as_str());
        if quiesce.applies_to(h) && !quiesce.is_expired_at(now) {
            return ExecutionStep::Refuse(ExecutionError::SystemQuiesced);
        }
        let base = basename_of(warrant.verdict.file_id.as_str());
        if NamingContract::classify(base.as_str()) != FileOrigin::Owned {
            return ExecutionStep::Refuse(ExecutionError::PermissionDenied);
        }
        match warrant.verdict.action {
            EvictionAction::SoftDelete => ExecutionStep::SoftDelete,
            EvictionAction::HardDelete => ExecutionStep::RemoveFile,
            _ => ExecutionStep::Refuse(
                ExecutionError::IoError(String::from_str("Unknown action")),
            ),
        }
    }

    /// The report for a warrant that was committed before: success, nothing
    /// done.
    pub fn already_committed_report(&self, warrant: &ExecutionWarrant, now: u64) -> (r: ExecutionReport)
        ensures
            r.success,
            r.error.is_none(),
            r.warrant_nonce == warrant.nonce,
            r.file_id@ == warrant.verdict.file_id@,
            r.action == warrant.verdict.action,
            r.completed_at == now,
            r.audit_detail matches Some(d) && d@ == "Idempotent re-execution"@,
    {
        ExecutionReport {
            warrant_nonce: warrant.nonce,
            file_id: warrant.verdict.file_id.clone(),
            action: warrant.verdict.action,
            success: true,
            error: None,
            completed_at: now,
            audit_detail: Some(String::from_str("Idempotent re-execution")),
        }
    }

    /// Records `result` for `warrant` at `now` and reports it. A failed
    /// journal write is an `IoError`: the warrant stays pending.
    fn record(
        &self,
        ledger: &mut AuditLedger,
        warrant: &ExecutionWarrant,
        result: ExecutionResult,
        errno: Option<i32>,
        now: u64,
    ) -> (r: Result<ExecutionReport, ExecutionError>)
        ensures
            r.is_ok() <==> crate::ledger::has_warrant(
                old(ledger).spec_warrants(),
                warrant_id_of(warrant.nonce),
            ),
            r.is_err() ==> *final(ledger) == *old(ledger),
            r.is_err() ==> r matches Err(ExecutionError::IoError(_)),
            r.is_ok() ==> {
                &&& final(ledger).spec_events() == old(ledger).spec_events().push(
                    final(ledger).spec_events().last(),
                )
                &&& final(ledger).spec_events().last().warrant_nonce@ == warrant_id_of(warrant.nonce)
                &&& final(ledger).spec_events().last().result@ == result_text(result)
                &&& final(ledger).spec_events().last().errno == errno
                &&& final(ledger).spec_events().last().executed_at_unix == now
                &&& final(ledger).spec_warrants() == old(ledger).spec_warrants()
                &&& final(ledger).spec_quiesce() == old(ledger).spec_quiesce()
            },
            r matches Ok(rep) ==> rep.success == (result == ExecutionResult::Success)
                && rep.warrant_nonce == warrant.nonce && rep.file_id@ == warrant.verdict.file_id@
                && rep.action == warrant.verdict.action && rep.completed_at == now
                && (rep.error is None <==> rep.success),
    {
        let text = result.as_str();
        let event = ExecutionEventEntry {
            id: 0,
            warrant_nonce: warrant.warrant_id(),
            executed_at_unix: now,
            executor_id: self.executor_id.clone(),
            result: string_of(&chars_of(text)),
            errno,
        };
        proof {
            reveal_strlit("SUCCESS");
            reveal_strlit("FAIL_PERMISSION");
            reveal_strlit("FAIL_IO");
            reveal_strlit("FAIL_LOCKED");
        }
        let ghost l0 = *ledger;
        match ledger.record_execution(event) {
            Ok(()) => {},
            Err(_) => {
                return Err(ExecutionError::IoError(String::from_str("Failed to record execution")));
            },
        }
        assert(ledger.spec_events() =~= l0.spec_events().push(ledger.spec_events().last()));
        let success = result == ExecutionResult::Success;
        let error = match result {
            ExecutionResult::Success => None,
            ExecutionResult::FailPermission => Some(ExecutionError::PermissionDenied),
            ExecutionResult::FailIo => Some(ExecutionError::IoError(String::from_str("I/O operation failed"))),
            ExecutionResult::FailLocked => Some(ExecutionError::FileLocked),
        };
        Ok(ExecutionReport {
            warrant_nonce: warrant.nonce,
            file_id: warrant.verdict.file_id.clone(),
            action: warrant.verdict.action,
            success,
            error,
            completed_at: now,
            audit_detail: Some(String::from_str(text)),
        })
    }

    /// Completes a soft delete: the entry leaves the registry (the file stays
    /// on disk) and success is recorded.
    pub fn complete_soft_delete(
        &self,
        ledger: &mut AuditLedger,
        registry: &mut CacheRegistry,
        warrant: &ExecutionWarrant,
        now: u64,
    ) -> (r: Result<ExecutionReport, ExecutionError>)
        requires
            old(registry).wf(),
        ensures
            final(registry).wf(),
            find_id(final(registry).spec_entries(), warrant.verdict.file_id@).is_none(),
            forall|k: int|
                0 <= k < old(registry).spec_entries().len() && (#[trigger] old(registry).spec_entries()[k]).file_id@
                    != warrant.verdict.file_id@ ==> final(registry).spec_entries().contains(
                    old(registry).spec_entries()[k],
                ),
            r.is_ok() <==> crate::ledger::has_warrant(
                old(ledger).spec_warrants(),
                warrant_id_of(warrant.nonce),
            ),
            r.is_err() ==> *final(ledger) == *old(ledger),
            r.is_ok() ==> final(ledger).committed(warrant_id_of(warrant.nonce))
                && final(ledger).spec_warrants() == old(ledger).spec_warrants(),
            r matches Ok(rep) ==> rep.success,
    {
        registry.remove_entry_at(warrant.verdict.file_id.as_str(), now);
        let r = self.record(ledger, warrant, ExecutionResult::Success, None, now);
        proof {
            if r.is_ok() {
                let n = ledger.spec_events().len() - 1;
                assert(ledger.spec_events()[n].warrant_nonce@ == warrant_id_of(warrant.nonce));
            }
        }
        r
    }

    /// Records the outcome of a removal: removed and not-found are success
    /// (the file is absent either way); a permission error, a lock or another
    /// I/O error is recorded as such and leaves the warrant pending.
    pub fn complete_removal(
        &self,
        ledger: &mut AuditLedger,
        warrant: &ExecutionWarrant,
        outcome: RemovalOutcome,
        now: u64,
    ) -> (r: Result<ExecutionReport, ExecutionError>)
        ensures
            r.is_ok() <==> crate::ledger::has_warrant(
                old(ledger).spec_warrants(),
                warrant_id_of(warrant.nonce),
            ),
            r.is_err() ==> *final(ledger) == *old(ledger),
            r.is_ok() ==> {
                &&& final(ledger).spec_events().drop_last() == old(ledger).spec_events()
                &&& final(ledger).spec_events().last().warrant_nonce@ == warrant_id_of(warrant.nonce)
                &&& final(ledger).spec_events().last().result@ == result_text(result_of(outcome))
                &&& final(ledger).spec_events().last().errno == errno_of(outcome)
                &&& final(ledger).spec_warrants() == old(ledger).spec_warrants()
            },
            // success is recorded only when the file is gone
            final(ledger).committed(warrant_id_of(warrant.nonce)) ==> old(ledger).committed(
                warrant_id_of(warrant.nonce),
            ) || outcome == RemovalOutcome::Removed || outcome == RemovalOutcome::NotFound,
            r matches Ok(rep) ==> rep.success == (outcome == RemovalOutcome::Removed || outcome
                == RemovalOutcome::NotFound),
    {
        let (result, errno) = match outcome {
            RemovalOutcome::Removed => (ExecutionResult::Success, None),
            RemovalOutcome::NotFound => (ExecutionResult::Success, None),
            RemovalOutcome::PermissionDenied { errno } => (ExecutionResult::FailPermission, errno),
            RemovalOutcome::Locked { errno } => (ExecutionResult::FailLocked, errno),
            RemovalOutcome::Failed { errno } => (ExecutionResult::FailIo, errno),
        };
        let ghost l0 = *ledger;
        let r = self.record(ledger, warrant, result, errno, now);
        proof {
            reveal_strlit("SUCCESS");
            reveal_strlit("FAIL_PERMISSION");
            reveal_strlit("FAIL_IO");
            reveal_strlit("FAIL_LOCKED");
            if r.is_ok() {
                let es = ledger.spec_events();
                assert(es.drop_last() =~= l0.spec_events());
                if ledger.committed(warrant_id_of(warrant.nonce)) && !l0.committed(warrant_id_of(warrant.nonce)) {
                    let k = choose|k: int|
                        0 <= k < es.len() && (#[trigger] es[k]).warrant_nonce@ == warrant_id_of(warrant.nonce)
                            && es[k].result@ == "SUCCESS"@;
                    if k < es.len() - 1 {
                        assert(l0.spec_events()[k] == es[k]);
                    }
                    assert(result_text(result) == "SUCCESS"@);
                    assert(("FAIL_PERMISSION"@)[0] != ("SUCCESS"@)[0]);
                    assert(("FAIL_IO"@)[0] != ("SUCCESS"@)[0]);
                    assert(("FAIL_LOCKED"@)[0] != ("SUCCESS"@)[0]);
                }
            }
        }
        r
    }
}

/// Executing a warrant twice commits it once: once a success event for the
/// warrant is journaled, the warrant is committed, so a second execution
/// plans `AlreadyCommitted` and makes no change.
pub proof fn lemma_execute_idempotent(before: AuditLedger, after: AuditLedger, w: ExecutionWarrant)
    requires
        after.spec_events().drop_last() == before.spec_events(),
        after.spec_events().len() == before.spec_events().len() + 1,
        after.spec_events().last().warrant_nonce@ == warrant_id_of(w.nonce),
        after.spec_events().last().result@ == "SUCCESS"@,
    ensures
        after.committed(warrant_id_of(w.nonce)),
        !after.pending(warrant_id_of(w.nonce)),
{
    let n = after.spec_events().len() - 1;
    assert(after.spec_events()[n].warrant_nonce@ == warrant_id_of(w.nonce));
}

} // verus!
