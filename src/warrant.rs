use vstd::prelude::*;
use vstd::string::*;

use crate::court::{CacheRegistry, EvictionAction, EvictionVerdict};
use crate::text::{chars_of, hex16, hex_fixed, push_chars, string_of};

pub use crate::text::current_timestamp;

verus! {

/// A verdict made executable: the only authorization for a destructive act.
#[derive(Debug, Clone)]
pub struct ExecutionWarrant {
    pub verdict: EvictionVerdict,
    pub nonce: u64,
    pub issued_at: u64,
    pub signature: String,
    pub ledger_ref: Option<String>,
}

/// The journal id of the warrant with `nonce`: `WARRANT_` and sixteen
/// lowercase hexadecimal digits.
pub open spec fn warrant_id_of(nonce: u64) -> Seq<char> {
    seq!['W', 'A', 'R', 'R', 'A', 'N', 'T', '_'] + hex_fixed(nonce as nat, 16)
}

impl ExecutionWarrant {
    /// A warrant for `verdict` issued at `now`, unsigned and not yet journaled.
    pub fn new_at(verdict: EvictionVerdict, nonce: u64, now: u64) -> (r: ExecutionWarrant)
        ensures
            r.verdict == verdict,
            r.nonce == nonce,
            r.issued_at == now,
            r.signature@.len() == 0,
            r.ledger_ref.is_none(),
    {
        ExecutionWarrant {
            verdict,
            nonce,
            issued_at: now,
            signature: String::new(),
            ledger_ref: None,
        }
    }

    /// A warrant for `verdict` issued now.
    pub fn new(verdict: EvictionVerdict, nonce: u64) -> (r: ExecutionWarrant)
        ensures
            r.verdict == verdict,
            r.nonce == nonce,
            r.signature@.len() == 0,
            r.ledger_ref.is_none(),
    {
        let now = current_timestamp();
        ExecutionWarrant::new_at(verdict, nonce, now)
    }

    /// A warrant is well formed when its nonce and issue time are non-zero and
    /// it names a target.
    pub fn is_valid(&self) -> (r: bool)
        ensures
            r == (self.nonce != 0 && self.verdict.file_id@.len() != 0 && self.issued_at != 0),
    {
        if self.nonce == 0 {
            return false;
        }
        if self.verdict.file_id.as_str().is_empty() {
            return false;
        }
        if self.issued_at == 0 {
            return false;
        }
        true
    }

    /// The id under which the journal knows this warrant.
    pub fn warrant_id(&self) -> (r: String)
        ensures
            r@ == warrant_id_of(self.nonce),
    {
        let mut v = chars_of("WARRANT_");
        proof {
            reveal_strlit("WARRANT_");
        }
        let digits = hex16(self.nonce);
        push_chars(&mut v, &digits);
        string_of(&v)
    }
}

/// Why an execution did not happen or did not succeed.
#[derive(Debug, Clone)]
pub enum ExecutionError {
    FileNotFound,
    PermissionDenied,
    IoError(String),
    FileLocked,
    WarrantAlreadyExecuted,
    WarrantNotInLedger,
    SystemQuiesced,
}

/// The outcome of executing one warrant.
#[derive(Debug, Clone)]
pub struct ExecutionReport {
    pub warrant_nonce: u64,
    pub file_id: String,
    pub action: EvictionAction,
    pub success: bool,
    pub error: Option<ExecutionError>,
    pub completed_at: u64,
    pub audit_detail: Option<String>,
}

/// Whether new destructive work is suspended, for one target or for all.
#[derive(Debug, Clone, Copy, PartialEq, Eq, Structural)]
pub enum QuiesceSignal {
    Inactive,
    Pending { file_id_hash: u64, deadline_unix_sec: u64 },
    Global { deadline_unix_sec: u64 },
}

impl QuiesceSignal {
    pub open spec fn spec_applies_to(self, file_id_hash: u64) -> bool {
        match self {
            QuiesceSignal::Inactive => false,
            QuiesceSignal::Pending { file_id_hash: target, .. } => target == file_id_hash,
            QuiesceSignal::Global { .. } => true,
        }
    }

    pub open spec fn spec_expired_at(self, now: u64) -> bool {
        match self {
            QuiesceSignal::Inactive => false,
            QuiesceSignal::Pending { deadline_unix_sec, .. } => now > deadline_unix_sec,
            QuiesceSignal::Global { deadline_unix_sec } => now > deadline_unix_sec,
        }
    }

    /// Whether the signal covers the target with this hash: a pending signal
    /// covers its own target only, a global one covers every target.
    pub fn applies_to(&self, file_id_hash: u64) -> (r: bool)
        ensures
            r == self.spec_applies_to(file_id_hash),
    {
        match self {
            QuiesceSignal::Inactive => false,
            QuiesceSignal::Pending { file_id_hash: target, .. } => *target == file_id_hash,
            QuiesceSignal::Global { .. } => true,
        }
    }

    /// Whether the deadline has passed at `now`. An inactive signal never
    /// expires.
    pub fn is_expired_at(&self, now: u64) -> (r: bool)
        ensures
            r == self.spec_expired_at(now),
    {
        match self {
            QuiesceSignal::Inactive => false,
            QuiesceSignal::Pending { deadline_unix_sec, .. } => now > *deadline_unix_sec,
            QuiesceSignal::Global { deadline_unix_sec } => now > *deadline_unix_sec,
        }
    }

    /// Whether the deadline has passed now.
    pub fn is_expired(&self) -> (r: bool)
        ensures
            exists|t: u64| r == #[trigger] self.spec_expired_at(t),
            *self == QuiesceSignal::Inactive ==> !r,
            (*self == QuiesceSignal::Global { deadline_unix_sec: u64::MAX }) ==> !r,
            (*self matches QuiesceSignal::Pending { deadline_unix_sec, .. } && deadline_unix_sec == u64::MAX) ==> !r,
    {
        let now = current_timestamp();
        let r = self.is_expired_at(now);
        assert(r == self.spec_expired_at(now));
        r
    }

    /// Seconds left at `now` until the deadline (0 once it is reached), or
    /// `None` for an inactive signal.
    pub fn time_to_deadline_at(&self, now: u64) -> (r: Option<u64>)
        ensures
            match *self {
                QuiesceSignal::Inactive => r.is_none(),
                QuiesceSignal::Pending { deadline_unix_sec, .. } | QuiesceSignal::Global {
                    deadline_unix_sec,
                } => r == Some(
                    if now < deadline_unix_sec {
                        (deadline_unix_sec - now) as u64
                    } else {
                        0
                    },
                ),
            },
    {
        let deadline = match self {
            QuiesceSignal::Inactive => {
                return None;
            },
            QuiesceSignal::Pending { deadline_unix_sec, .. } => *deadline_unix_sec,
            QuiesceSignal::Global { deadline_unix_sec } => *deadline_unix_sec,
        };
        if now < deadline {
            Some(deadline - now)
        } else {
            Some(0)
        }
    }

    /// Seconds left now until the deadline; see `time_to_deadline_at`.
    pub fn time_to_deadline(&self) -> (r: Option<u64>)
        ensures
            (*self == QuiesceSignal::Inactive) <==> r.is_none(),
            exists|t: u64| #[trigger] time_left_at(*self, t) == r,
            match *self {
                QuiesceSignal::Inactive => true,
                QuiesceSignal::Pending { deadline_unix_sec, .. } | QuiesceSignal::Global {
                    deadline_unix_sec,
                } => r matches Some(x) && x <= deadline_unix_sec,
            },
    {
        let now = current_timestamp();
        let r = self.time_to_deadline_at(now);
        assert(time_left_at(*self, now) == r);
        r
    }
}

/// Seconds left at `t` until the signal's deadline, as `time_to_deadline_at`
/// reports them.
pub open spec fn time_left_at(q: QuiesceSignal, t: u64) -> Option<u64> {
    match q {
        QuiesceSignal::Inactive => None,
        QuiesceSignal::Pending { deadline_unix_sec, .. } | QuiesceSignal::Global { deadline_unix_sec } => Some(
            if t < deadline_unix_sec {
                (deadline_unix_sec - t) as u64
            } else {
                0
            },
        ),
    }
}

/// A reversible removal: the entry leaves the registry, the file stays.
pub struct SoftDeleteSpec {
    pub file_id: String,
    pub reason: String,
    pub is_reversible: bool,
}

/// The purge-all drain: quiesce, collect targets, clear the registry, execute.
pub struct PurgeAllProtocol {
    pub enabled: bool,
    pub phase: u8,
    pub targets: Vec<String>,
}

impl PurgeAllProtocol {
    /// A protocol not yet started.
    pub fn new(enabled: bool) -> (r: PurgeAllProtocol)
        ensures
            r.enabled == enabled,
            r.phase == 0,
            r.targets@.len() == 0,
    {
        PurgeAllProtocol { enabled, phase: 0, targets: Vec::new() }
    }

    /// Phase one at `now`: a global quiesce lasting `deadline_sec` seconds
    /// (its deadline saturates at the largest time).
    pub fn phase_1_quiesce_at(&mut self, deadline_sec: u64, now: u64) -> (r: QuiesceSignal)
        ensures
            final(self).phase == 1,
            final(self).enabled == old(self).enabled,
            final(self).targets == old(self).targets,
            r == (QuiesceSignal::Global {
                deadline_unix_sec: if now + deadline_sec <= u64::MAX {
                    (now + deadline_sec) as u64
                } else {
                    u64::MAX
                },
            }),
    {
        self.phase = 1;
        QuiesceSignal::Global { deadline_unix_sec: now.saturating_add(deadline_sec) }
    }

    /// Phase one now; see `phase_1_quiesce_at`.
    pub fn phase_1_quiesce(&mut self, deadline_sec: u64) -> (r: QuiesceSignal)
        ensures
            final(self).phase == 1,
            final(self).enabled == old(self).enabled,
            final(self).targets == old(self).targets,
            r matches QuiesceSignal::Global { deadline_unix_sec: d } && d >= deadline_sec,
    {
        let now = current_timestamp();
        self.phase_1_quiesce_at(deadline_sec, now)
    }

    /// Phase two: every registered id becomes a target, in registry order.
    pub fn phase_2_collect_targets(&mut self, registry: &CacheRegistry)
        ensures
            final(self).phase == 2,
            final(self).enabled == old(self).enabled,
            final(self).targets@.len() == registry.spec_entries().len(),
            forall|i: int|
                0 <= i < registry.spec_entries().len() ==> #[trigger] final(self).targets@[i]@
                    == registry.spec_entries()[i].file_id@,
    {
        self.phase = 2;
        let entries = registry.entries();
        let mut targets: Vec<String> = Vec::new();
        let mut i: usize = 0;
        while i < entries.len()
            invariant
                entries@ == registry.spec_entries(),
                i <= entries.len(),
                targets@.len() == i,
                forall|k: int| 0 <= k < i ==> #[trigger] targets@[k]@ == entries@[k].file_id@,
            decreases entries.len() - i,
        {
            targets.push(entries[i].file_id.clone());
            i = i + 1;
        }
        self.targets = targets;
    }

    /// Phase three: the registry is to be cleared; returns how many targets
    /// were collected.
    pub fn phase_3_clear_registry(&mut self) -> (r: usize)
        ensures
            final(self).phase == 3,
            final(self).targets == old(self).targets,
            r == old(self).targets@.len(),
    {
        self.phase = 3;
        self.targets.len()
    }

    /// Phase four: execution is handed to the executioner; no report is made
    /// here.
    pub fn phase_4_execute(&mut self) -> (r: Vec<ExecutionReport>)
        ensures
            final(self).phase == 4,
            final(self).targets == old(self).targets,
            r@.len() == 0,
    {
        self.phase = 4;
        Vec::new()
    }
}

/// Life stages of a warrant.
#[derive(Debug, Clone, Copy, PartialEq, Eq, Structural)]
pub enum WarrantState {
    Pending,
    Executing,
    Committed,
    Failed,
    Revoked,
}

/// A warrant as the journal tracks it.
pub struct LedgerEntry {
    pub warrant_nonce: u64,
    pub state: WarrantState,
    pub created_at: u64,
    pub completed_at: Option<u64>,
    pub verdict: String,
    pub result: Option<ExecutionReport>,
}

pub const FNV_OFFSET: u64 = 0xcbf29ce484222325;

pub const FNV_PRIME: u64 = 0x100000001b3;

/// FNV-1a over `bytes`.
pub open spec fn fnv1a(bytes: Seq<u8>) -> u64
    decreases bytes.len(),
{
    if bytes.len() == 0 {
        FNV_OFFSET
    } else {
        (fnv1a(bytes.drop_last()) ^ (bytes.last() as u64)).wrapping_mul(FNV_PRIME)
    }
}

/// The 64-bit FNV-1a hash of the UTF-8 bytes of `file_id`.
pub fn hash_file_id(file_id: &str) -> (r: u64)
    ensures
        r == fnv1a(file_id.spec_bytes()),
{
    let bytes = file_id.as_bytes();
    let mut hash: u64 = FNV_OFFSET;
    let mut i: usize = 0;
    while i < bytes.len()
        invariant
            i <= bytes@.len(),
            bytes@ == file_id.spec_bytes(),
            hash == fnv1a(bytes@.subrange(0, i as int)),
        decreases bytes@.len() - i,
    {
        assert(bytes@.subrange(0, i + 1).drop_last() =~= bytes@.subrange(0, i as int));
        hash = hash ^ (bytes[i] as u64);
        hash = hash.wrapping_mul(FNV_PRIME);
        i = i + 1;
    }
    assert(bytes@.subrange(0, i as int) =~= bytes@);
    hash
}

} // verus!
