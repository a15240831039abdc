use vstd::prelude::*;

use crate::naming::{is_owned_name, NamingContract, FileOrigin};
use crate::text::{chars_of, decimal, decimal_chars, push_chars, push_text, same_text, string_of};
use crate::warrant::{fnv1a, hash_file_id, QuiesceSignal};
use vstd::string::*;
use vstd::utf8::encode_utf8;

verus! {

/// A warrant as journaled.
#[derive(Debug, Clone)]
pub struct WarrantEntry {
    pub nonce: String,
    pub issued_at_unix: u64,
    pub target_path: String,
    /// `SOFT_DELETE` or `HARD_DELETE`.
    pub action: String,
    pub signature: Vec<u8>,
    pub court_version: String,
}

/// The journaled outcome of one execution attempt.
#[derive(Debug, Clone)]
pub struct ExecutionEventEntry {
    /// Assigned by the journal.
    pub id: u64,
    pub warrant_nonce: String,
    pub executed_at_unix: u64,
    pub executor_id: String,
    /// One of the `ExecutionResult` texts.
    pub result: String,
    pub errno: Option<i32>,
}

/// A journaled system event.
#[derive(Debug, Clone)]
pub struct SystemEventEntry {
    pub id: u64,
    /// `QUIESCE_ENTER`, `QUIESCE_EXIT`, `PURGE_BEGIN` or `PURGE_END`.
    pub event_type: String,
    pub issued_at_unix: u64,
    pub deadline_unix: Option<u64>,
    pub actor: String,
}

/// How an execution attempt ended.
#[derive(Debug, Clone, Copy, PartialEq, Eq, Structural)]
pub enum ExecutionResult {
    Success,
    FailPermission,
    FailIo,
    FailLocked,
}

pub open spec fn result_text(r: ExecutionResult) -> Seq<char> {
    match r {
        ExecutionResult::Success => "SUCCESS"@,
        ExecutionResult::FailPermission => "FAIL_PERMISSION"@,
        ExecutionResult::FailIo => "FAIL_IO"@,
        ExecutionResult::FailLocked => "FAIL_LOCKED"@,
    }
}

pub open spec fn is_result_text(s: Seq<char>) -> bool {
    s == "SUCCESS"@ || s == "FAIL_PERMISSION"@ || s == "FAIL_IO"@ || s == "FAIL_LOCKED"@
}

impl ExecutionResult {
    /// The journal's text for this result.
    pub fn as_str(&self) -> (r: &'static str)
        ensures
            r@ == result_text(*self),
    {
        match self {
            ExecutionResult::Success => "SUCCESS",
            ExecutionResult::FailPermission => "FAIL_PERMISSION",
            ExecutionResult::FailIo => "FAIL_IO",
            ExecutionResult::FailLocked => "FAIL_LOCKED",
        }
    }

    /// The result a journal text stands for, if any.
    pub fn from_str(s: &str) -> (r: Option<ExecutionResult>)
        ensures
            match r {
                Some(x) => result_text(x) == s@,
                None => !is_result_text(s@),
            },
    {
        if same_text(s, "SUCCESS") {
            Some(ExecutionResult::Success)
        } else if same_text(s, "FAIL_PERMISSION") {
            Some(ExecutionResult::FailPermission)
        } else if same_text(s, "FAIL_IO") {
            Some(ExecutionResult::FailIo)
        } else if same_text(s, "FAIL_LOCKED") {
            Some(ExecutionResult::FailLocked)
        } else {
            None
        }
    }
}

/// Why the journal refused a write or failed its check.
#[derive(Debug, Clone, PartialEq, Eq)]
pub enum LedgerError {
    /// The target's basename is not cache-produced.
    InvalidTarget,
    /// The action is neither `SOFT_DELETE` nor `HARD_DELETE`.
    InvalidAction,
    /// A warrant with this nonce is already journaled.
    DuplicateNonce,
    /// New destructive warrants are suspended.
    Quiesced,
    /// The event references no journaled warrant.
    WarrantNotFound,
    /// The event's result is not one of the known texts.
    InvalidResult,
    /// The system event type is not one of the known texts.
    InvalidEventType,
    /// Some events reference no journaled warrant.
    IntegrityViolation,
}

/// The part of `s` after its last path separator.
pub open spec fn basename(s: Seq<char>) -> Seq<char>
    decreases s.len(),
{
    if s.len() == 0 {
        s
    } else if s.last() == '/' || s.last() == '\\' {
        Seq::empty()
    } else {
        basename(s.drop_last()).push(s.last())
    }
}

/// The basename of `path`.
pub fn basename_of(path: &str) -> (r: String)
    ensures
        r@ == basename(path@),
{
    let cs = chars_of(path);
    let mut out: Vec<char> = Vec::new();
    let mut i: usize = 0;
    while i < cs.len()
        invariant
            i <= cs.len(),
            cs@ == path@,
            out@ == basename(path@.subrange(0, i as int)),
        decreases cs.len() - i,
    {
        let c = cs[i];
        assert(path@.subrange(0, i + 1).drop_last() =~= path@.subrange(0, i as int));
        if c == '/' || c == '\\' {
            out = Vec::new();
        } else {
            out.push(c);
        }
        i = i + 1;
    }
    assert(path@.subrange(0, i as int) =~= path@);
    string_of(&out)
}

pub open spec fn has_warrant(ws: Seq<WarrantEntry>, nonce: Seq<char>) -> bool {
    exists|i: int| 0 <= i < ws.len() && (#[trigger] ws[i]).nonce@ == nonce
}

/// A warrant is committed iff a successful event references it.
pub open spec fn is_committed_in(es: Seq<ExecutionEventEntry>, nonce: Seq<char>) -> bool {
    exists|i: int|
        0 <= i < es.len() && (#[trigger] es[i]).warrant_nonce@ == nonce && es[i].result@
            == "SUCCESS"@
}

/// Every event references a journaled warrant.
pub open spec fn integrity_holds(ws: Seq<WarrantEntry>, es: Seq<ExecutionEventEntry>) -> bool {
    forall|i: int| 0 <= i < es.len() ==> has_warrant(ws, (#[trigger] es[i]).warrant_nonce@)
}

pub open spec fn is_action_text(s: Seq<char>) -> bool {
    s == "SOFT_DELETE"@ || s == "HARD_DELETE"@
}

pub open spec fn is_system_event_text(s: Seq<char>) -> bool {
    s == "QUIESCE_ENTER"@ || s == "QUIESCE_EXIT"@ || s == "PURGE_BEGIN"@ || s == "PURGE_END"@
}

/// The reference returned for a journaled warrant.
pub open spec fn ledger_ref_of(nonce: Seq<char>, now: u64) -> Seq<char> {
    seq!['L', 'E', '_'] + nonce + seq!['_'] + decimal(now as nat)
}

/// The append-only audit journal: warrants, execution events and system
/// events, plus the quiesce state that system events establish.
pub struct AuditLedger {
    warrants: Vec<WarrantEntry>,
    events: Vec<ExecutionEventEntry>,
    system_events: Vec<SystemEventEntry>,
    quiesce: QuiesceSignal,
}

impl AuditLedger {
    pub closed spec fn spec_warrants(&self) -> Seq<WarrantEntry> {
        self.warrants@
    }

    pub closed spec fn spec_events(&self) -> Seq<ExecutionEventEntry> {
        self.events@
    }

    pub closed spec fn spec_system_events(&self) -> Seq<SystemEventEntry> {
        self.system_events@
    }

    pub closed spec fn spec_quiesce(&self) -> QuiesceSignal {
        self.quiesce
    }

    /// Whether the journaled warrant with `nonce` is committed.
    pub open spec fn committed(&self, nonce: Seq<char>) -> bool {
        is_committed_in(self.spec_events(), nonce)
    }

    /// Whether a warrant with `nonce` is journaled and not committed.
    pub open spec fn pending(&self, nonce: Seq<char>) -> bool {
        has_warrant(self.spec_warrants(), nonce) && !self.committed(nonce)
    }

    /// Whether destructive warrants for `target` are suspended at `now`.
    pub open spec fn quiesced_for(&self, target: Seq<char>, now: u64) -> bool {
        self.spec_quiesce().spec_applies_to(fnv1a(encode_utf8(target)))
            && !self.spec_quiesce().spec_expired_at(now)
    }

    /// An empty journal.
    pub fn new() -> (r: AuditLedger)
        ensures
            r.spec_warrants().len() == 0,
            r.spec_events().len() == 0,
            r.spec_system_events().len() == 0,
            r.spec_quiesce() == QuiesceSignal::Inactive,
    {
        AuditLedger {
            warrants: Vec::new(),
            events: Vec::new(),
            system_events: Vec::new(),
            quiesce: QuiesceSignal::Inactive,
        }
    }

    /// A journal holding records read back from storage, unchecked; call
    /// `verify_integrity` before relying on it.
    pub fn from_records(
        warrants: Vec<WarrantEntry>,
        events: Vec<ExecutionEventEntry>,
        system_events: Vec<SystemEventEntry>,
    ) -> (r: AuditLedger)
        ensures
            r.spec_warrants() == warrants@,
            r.spec_events() == events@,
            r.spec_system_events() == system_events@,
            r.spec_quiesce() == QuiesceSignal::Inactive,
    {
        AuditLedger { warrants, events, system_events, quiesce: QuiesceSignal::Inactive }
    }

    fn find_warrant(&self, nonce: &str) -> (r: Option<usize>)
        ensures
            match r {
                Some(i) => i < self.warrants@.len() && self.warrants@[i as int].nonce@ == nonce@,
                None => !has_warrant(self.warrants@, nonce@),
            },
    {
        let mut i: usize = 0;
        while i < self.warrants.len()
            invariant
                i <= self.warrants@.len(),
                forall|k: int| 0 <= k < i ==> (#[trigger] self.warrants@[k]).nonce@ != nonce@,
            decreases self.warrants@.len() - i,
        {
            if same_text(self.warrants[i].nonce.as_str(), nonce) {
                return Some(i);
            }
            i = i + 1;
        }
        None
    }

    /// Whether the warrant with `nonce` is committed: some event with result
    /// `SUCCESS` references it.
    pub fn is_warrant_executed(&self, nonce: &str) -> (r: bool)
        ensures
            r == self.committed(nonce@),
    {
        let mut i: usize = 0;
        while i < self.events.len()
            invariant
                i <= self.events@.len(),
                forall|k: int|
                    0 <= k < i ==> !((#[trigger] self.events@[k]).warrant_nonce@ == nonce@
                        && self.events@[k].result@ == "SUCCESS"@),
            decreases self.events@.len() - i,
        {
            let e = &self.events[i];
            if same_text(e.warrant_nonce.as_str(), nonce) && same_text(e.result.as_str(), "SUCCESS") {
                return true;
            }
            i = i + 1;
        }
        false
    }
}

/// Two journal entries agree field by field.
pub open spec fn same_entry(a: WarrantEntry, b: WarrantEntry) -> bool {
    &&& a.nonce@ == b.nonce@
    &&& a.issued_at_unix == b.issued_at_unix
    &&& a.target_path@ == b.target_path@
    &&& a.action@ == b.action@
    &&& a.signature@ == b.signature@
    &&& a.court_version@ == b.court_version@
}

/// `e` agrees with some entry of `ws`.
pub open spec fn stored_in(ws: Seq<WarrantEntry>, e: WarrantEntry) -> bool {
    exists|k: int| 0 <= k < ws.len() && same_entry(e, #[trigger] ws[k])
}

/// Whether some entry of `v` has nonce `nonce`.
fn holds_nonce(v: &Vec<WarrantEntry>, nonce: &str) -> (r: bool)
    ensures
        r == exists|j: int| 0 <= j < v@.len() && (#[trigger] v@[j]).nonce@ == nonce@,
{
    let mut j: usize = 0;
    while j < v.len()
        invariant
            j <= v@.len(),
            forall|k: int| 0 <= k < j ==> (#[trigger] v@[k]).nonce@ != nonce@,
        decreases v@.len() - j,
    {
        if same_text(v[j].nonce.as_str(), nonce) {
            return true;
        }
        j = j + 1;
    }
    false
}

impl WarrantEntry {
    /// A field-by-field copy.
    pub fn duplicate(&self) -> (r: WarrantEntry)
        ensures
            r.nonce@ == self.nonce@,
            r.issued_at_unix == self.issued_at_unix,
            r.target_path@ == self.target_path@,
            r.action@ == self.action@,
            r.signature@ == self.signature@,
            r.court_version@ == self.court_version@,
            same_entry(r, *self),
    {
        let mut sig: Vec<u8> = Vec::new();
        let mut i: usize = 0;
        while i < self.signature.len()
            invariant
                i <= self.signature@.len(),
                sig@ == self.signature@.subrange(0, i as int),
            decreases self.signature@.len() - i,
        {
            sig.push(self.signature[i]);
            i = i + 1;
            assert(sig@ =~= self.signature@.subrange(0, i as int));
        }
        assert(sig@ =~= self.signature@);
        WarrantEntry {
            nonce: self.nonce.clone(),
            issued_at_unix: self.issued_at_unix,
            target_path: self.target_path.clone(),
            action: self.action.clone(),
            signature: sig,
            court_version: self.court_version.clone(),
        }
    }
}

impl AuditLedger {
    /// Journals `warrant` at `now` and returns its reference
    /// `LE_<nonce>_<now>`. Refused, in this order of checks: a target whose
    /// basename is not cache-produced, an action other than `SOFT_DELETE` or
    /// `HARD_DELETE`, a quiesced target, a nonce already journaled. A refusal
    /// leaves the journal unchanged.
    pub fn append_warrant(&mut self, warrant: WarrantEntry, now: u64) -> (r: Result<String, LedgerError>)
        ensures
            !is_owned_name(basename(warrant.target_path@)) ==> r == Err::<String, LedgerError>(LedgerError::InvalidTarget),
            is_owned_name(basename(warrant.target_path@)) && !is_action_text(warrant.action@)
                ==> r == Err::<String, LedgerError>(LedgerError::InvalidAction),
            is_owned_name(basename(warrant.target_path@)) && is_action_text(warrant.action@)
                && old(self).quiesced_for(warrant.target_path@, now) ==> r == Err::<String, LedgerError>(LedgerError::Quiesced),
            is_owned_name(basename(warrant.target_path@)) && is_action_text(warrant.action@)
                && !old(self).quiesced_for(warrant.target_path@, now) && has_warrant(
                old(self).spec_warrants(),
                warrant.nonce@,
            ) ==> r == Err::<String, LedgerError>(LedgerError::DuplicateNonce),
            r.is_err() ==> *final(self) == *old(self),
            r.is_ok() <==> (is_owned_name(basename(warrant.target_path@)) && is_action_text(
                warrant.action@,
            ) && !old(self).quiesced_for(warrant.target_path@, now) && !has_warrant(
                old(self).spec_warrants(),
                warrant.nonce@,
            )),
            r.is_ok() ==> final(self).spec_warrants() == old(self).spec_warrants().push(warrant)
                && final(self).spec_events() == old(self).spec_events()
                && final(self).spec_system_events() == old(self).spec_system_events()
                && final(self).spec_quiesce() == old(self).spec_quiesce()
                && r.unwrap()@ == ledger_ref_of(warrant.nonce@, now),
    {
        let base = basename_of(warrant.target_path.as_str());
        if NamingContract::classify(base.as_str()) != FileOrigin::Owned {
            return Err(LedgerError::InvalidTarget);
        }
        if !(same_text(warrant.action.as_str(), "SOFT_DELETE") || same_text(warrant.action.as_str(), "HARD_DELETE")) {
            return Err(LedgerError::InvalidAction);
        }
        let h = hash_file_id(warrant.target_path.as_str());
        if self.quiesce.applies_to(h) && !self.quiesce.is_expired_at(now) {
            return Err(LedgerError::Quiesced);
        }
        if self.find_warrant(warrant.nonce.as_str()).is_some() {
            return Err(LedgerError::DuplicateNonce);
        }
        let mut reference = chars_of("LE_");
        proof {
            reveal_strlit("LE_");
        }
        push_text(&mut reference, warrant.nonce.as_str());
        reference.push('_');
        let digits = decimal_chars(now);
        push_chars(&mut reference, &digits);
        proof {
            assert(reference@ =~= ledger_ref_of(warrant.nonce@, now));
        }
        self.warrants.push(warrant);
        Ok(string_of(&reference))
    }

    /// Journals `event`, with its id assigned by the journal. Refused, leaving
    /// the journal unchanged, when it references no journaled warrant, or
    /// else when its result is not a known text.
    pub fn record_execution(&mut self, event: ExecutionEventEntry) -> (r: Result<(), LedgerError>)
        ensures
            !has_warrant(old(self).spec_warrants(), event.warrant_nonce@) ==> r == Err::<(), LedgerError>(LedgerError::WarrantNotFound),
            has_warrant(old(self).spec_warrants(), event.warrant_nonce@) && !is_result_text(event.result@)
                ==> r == Err::<(), LedgerError>(LedgerError::InvalidResult),
            r.is_ok() <==> has_warrant(old(self).spec_warrants(), event.warrant_nonce@) && is_result_text(event.result@),
            r.is_err() ==> *final(self) == *old(self),
            r.is_ok() ==> {
                &&& final(self).spec_events().len() == old(self).spec_events().len() + 1
                &&& final(self).spec_events().drop_last() == old(self).spec_events()
                &&& final(self).spec_events().last().warrant_nonce@ == event.warrant_nonce@
                &&& final(self).spec_events().last().result@ == event.result@
                &&& final(self).spec_events().last().executor_id@ == event.executor_id@
                &&& final(self).spec_events().last().executed_at_unix == event.executed_at_unix
                &&& final(self).spec_events().last().errno == event.errno
                &&& final(self).spec_warrants() == old(self).spec_warrants()
                &&& final(self).spec_system_events() == old(self).spec_system_events()
                &&& final(self).spec_quiesce() == old(self).spec_quiesce()
            },
    {
        if self.find_warrant(event.warrant_nonce.as_str()).is_none() {
            return Err(LedgerError::WarrantNotFound);
        }
        if ExecutionResult::from_str(event.result.as_str()).is_none() {
            return Err(LedgerError::InvalidResult);
        }
        let id = (self.events.len() as u64).saturating_add(1);
        let stored = ExecutionEventEntry {
            id,
            warrant_nonce: event.warrant_nonce,
            executed_at_unix: event.executed_at_unix,
            executor_id: event.executor_id,
            result: event.result,
            errno: event.errno,
        };
        let ghost e0 = self.events@;
        self.events.push(stored);
        assert(self.events@.drop_last() =~= e0);
        Ok(())
    }

    /// The journaled warrants that no successful event references, in journal
    /// order, one per nonce (the first journaled under it), each a copy of the
    /// stored entry.
    pub fn get_pending_warrants(&self) -> (r: Vec<WarrantEntry>)
        ensures
            forall|i: int| 0 <= i < r@.len() ==> #[trigger] self.pending(r@[i].nonce@),
            forall|i: int| 0 <= i < r@.len() ==> stored_in(self.spec_warrants(), #[trigger] r@[i]),
            forall|i: int, j: int| 0 <= i < j < r@.len() ==> (#[trigger] r@[i]).nonce@ != (#[trigger] r@[j]).nonce@,
            forall|k: int|
                0 <= k < self.spec_warrants().len() && !self.committed(
                    (#[trigger] self.spec_warrants()[k]).nonce@,
                ) ==> exists|j: int| 0 <= j < r@.len() && (#[trigger] r@[j]).nonce@ == self.spec_warrants()[k].nonce@,
    {
        let mut out: Vec<WarrantEntry> = Vec::new();
        let mut i: usize = 0;
        while i < self.warrants.len()
            invariant
                i <= self.warrants@.len(),
                forall|k: int| 0 <= k < out@.len() ==> #[trigger] self.pending(out@[k].nonce@),
                forall|j: int| 0 <= j < out@.len() ==> stored_in(self.warrants@, #[trigger] out@[j]),
                forall|a: int, b: int| 0 <= a < b < out@.len() ==> (#[trigger] out@[a]).nonce@ != (#[trigger] out@[b]).nonce@,
                forall|k: int|
                    0 <= k < i && !self.committed((#[trigger] self.warrants@[k]).nonce@) ==> exists|j: int|
                        0 <= j < out@.len() && (#[trigger] out@[j]).nonce@ == self.warrants@[k].nonce@,
            decreases self.warrants@.len() - i,
        {
            let w = &self.warrants[i];
            if !self.is_warrant_executed(w.nonce.as_str()) && !holds_nonce(&out, w.nonce.as_str()) {
                let copy = w.duplicate();
                proof {
                    assert(has_warrant(self.warrants@, copy.nonce@)) by {
                        assert(self.warrants@[i as int].nonce@ == copy.nonce@);
                    }
                }
                let ghost out0 = out@;
                out.push(copy);
                proof {
                    let n = out@.len() - 1;
                    assert(same_entry(out@[n], self.warrants@[i as int]));
                    assert(stored_in(self.warrants@, out@[n]));
                    assert forall|j: int| 0 <= j < out@.len() implies stored_in(self.warrants@, #[trigger] out@[j]) by {
                        if j < n {
                            assert(out@[j] == out0[j]);
                        }
                    }
                    assert forall|k: int|
                        0 <= k < i + 1 && !self.committed((#[trigger] self.warrants@[k]).nonce@)
                            implies exists|j: int|
                            0 <= j < out@.len() && (#[trigger] out@[j]).nonce@ == self.warrants@[k].nonce@ by {
                        if k == i as int {
                            assert(out@[n].nonce@ == self.warrants@[k].nonce@);
                        } else {
                            let j0 = choose|j: int|
                                0 <= j < out0.len() && (#[trigger] out0[j]).nonce@ == self.warrants@[k].nonce@;
                            assert(out@[j0] == out0[j0]);
                        }
                    }
                    assert forall|a: int, b: int| 0 <= a < b < out@.len() implies (#[trigger] out@[a]).nonce@
                        != (#[trigger] out@[b]).nonce@ by {
                        if b == n {
                            assert(out@[a] == out0[a]);
                        } else {
                            assert(out@[a] == out0[a] && out@[b] == out0[b]);
                        }
                    }
                }
            }
            i = i + 1;
        }
        out
    }

    /// Journals a system event at `now`. `QUIESCE_ENTER` suspends new
    /// destructive warrants for every target until `deadline_unix` (or for
    /// good without one) or until `QUIESCE_EXIT`; the purge markers change
    /// nothing else. An unknown type is refused and changes nothing.
    pub fn record_system_event(
        &mut self,
        event_type: &str,
        deadline_unix: Option<u64>,
        actor: &str,
        now: u64,
    ) -> (r: Result<(), LedgerError>)
        ensures
            r.is_ok() <==> is_system_event_text(event_type@),
            r.is_err() ==> *final(self) == *old(self),
            r.is_err() ==> r == Err::<(), LedgerError>(LedgerError::InvalidEventType),
            r.is_ok() ==> {
                &&& final(self).spec_warrants() == old(self).spec_warrants()
                &&& final(self).spec_events() == old(self).spec_events()
                &&& final(self).spec_system_events().len() == old(self).spec_system_events().len() + 1
                &&& final(self).spec_system_events().drop_last() == old(self).spec_system_events()
                &&& final(self).spec_system_events().last().event_type@ == event_type@
                &&& final(self).spec_system_events().last().issued_at_unix == now
                &&& final(self).spec_system_events().last().deadline_unix == deadline_unix
            },
            event_type@ == "QUIESCE_ENTER"@ ==> final(self).spec_quiesce() == (QuiesceSignal::Global {
                deadline_unix_sec: match deadline_unix {
                    Some(d) => d,
                    None => u64::MAX,
                },
            }),
            event_type@ == "QUIESCE_EXIT"@ ==> final(self).spec_quiesce() == QuiesceSignal::Inactive,
            event_type@ != "QUIESCE_ENTER"@ && event_type@ != "QUIESCE_EXIT"@ ==> final(self).spec_quiesce()
                == old(self).spec_quiesce(),
    {
        proof {
            reveal_strlit("QUIESCE_ENTER");
            reveal_strlit("QUIESCE_EXIT");
            assert(("QUIESCE_ENTER"@)[9] != ("QUIESCE_EXIT"@)[9]);
        }
        let enter = same_text(event_type, "QUIESCE_ENTER");
        let exit = same_text(event_type, "QUIESCE_EXIT");
        let purge = same_text(event_type, "PURGE_BEGIN") || same_text(event_type, "PURGE_END");
        if !(enter || exit || purge) {
            return Err(LedgerError::InvalidEventType);
        }
        let id = (self.system_events.len() as u64).saturating_add(1);
        let entry = SystemEventEntry {
            id,
            event_type: string_of(&chars_of(event_type)),
            issued_at_unix: now,
            deadline_unix,
            actor: string_of(&chars_of(actor)),
        };
        let ghost s0 = self.system_events@;
        self.system_events.push(entry);
        assert(self.system_events@.drop_last() =~= s0);
        if enter {
            let deadline = match deadline_unix {
                Some(d) => d,
                None => u64::MAX,
            };
            self.quiesce = QuiesceSignal::Global { deadline_unix_sec: deadline };
        } else if exit {
            self.quiesce = QuiesceSignal::Inactive;
        }
        Ok(())
    }

    /// The foreign-key closure check: fails iff some event references no
    /// journaled warrant.
    pub fn verify_integrity(&self) -> (r: Result<(), LedgerError>)
        ensures
            r.is_ok() <==> integrity_holds(self.spec_warrants(), self.spec_events()),
            r.is_err() ==> r == Err::<(), LedgerError>(LedgerError::IntegrityViolation),
    {
        let mut i: usize = 0;
        while i < self.events.len()
            invariant
                i <= self.events@.len(),
                forall|k: int| 0 <= k < i ==> has_warrant(self.warrants@, (#[trigger] self.events@[k]).warrant_nonce@),
            decreases self.events@.len() - i,
        {
            if self.find_warrant(self.events[i].warrant_nonce.as_str()).is_none() {
                return Err(LedgerError::IntegrityViolation);
            }
            i = i + 1;
        }
        Ok(())
    }

    /// The current quiesce state.
    pub fn quiesce_signal(&self) -> (r: QuiesceSignal)
        ensures
            r == self.spec_quiesce(),
    {
        self.quiesce
    }
}

impl AuditLedger {
    /// Every journaled warrant, in journal order.
    pub fn all_warrants(&self) -> (r: &Vec<WarrantEntry>)
        ensures
            r@ == self.spec_warrants(),
    {
        &self.warrants
    }

    /// Every journaled execution event, in journal order.
    pub fn all_events(&self) -> (r: &Vec<ExecutionEventEntry>)
        ensures
            r@ == self.spec_events(),
    {
        &self.events
    }
}

} // verus!
