//! The evidence runtime of a document-processing desktop backbone: a
//! two-tier content-addressed cache, an intent-aware prefetcher, an adaptive
//! backpressure controller, and a crash-safe deletion pipeline (registry,
//! court, executioner, janitor) with an append-only audit journal.

/// Character and string helpers shared by the modules.
pub mod text;
/// Which on-disk files are cache-produced.
pub mod naming;
/// Registry of cache artifacts and the resource court that judges them.
pub mod court;
/// Warrants, quiesce signals and the purge protocol.
pub mod warrant;
/// The append-only audit journal.
pub mod ledger;
/// The only component that drives destructive work.
pub mod executor;
/// Startup reconciliation of journal and disk.
pub mod janitor;
/// The two-tier block cache.
pub mod cache;
/// Viewport-driven prefetch scheduling.
pub mod prefetch;
/// Admission control for extraction work.
pub mod backpressure;
/// Cleaning of raw extracted text.
pub mod sanitizer;
/// Detection and conversion of legacy Vietnamese encodings.
pub mod legacy_fonts;
/// Normalization of accounting terms and column headers.
pub mod normalizer;
/// Messages exchanged with the UI and the workers.
pub mod protocol;
/// Correlation of requests and responses.
pub mod router;
/// The crop cache in front of the workers.
pub mod evidence;
/// The worker RPC envelope.
pub mod ipc;
