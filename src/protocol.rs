use vstd::prelude::*;

use crate::text::{chars_of, decimal, decimal_chars, hex16, hex_fixed, push_chars, push_text, string_of};
use crate::warrant::fnv1a;

verus! {

/// How urgently the UI needs a result.
#[derive(Debug, Clone, Copy, PartialEq, Eq, Structural)]
pub enum Priority {
    /// User clicked: needs a response within half a second.
    Immediate,
    /// User hovered: within two seconds.
    Normal,
    /// Prefetch: can wait.
    Background,
}

impl Default for Priority {
    fn default() -> (r: Priority)
        ensures
            r == Priority::Normal,
    {
        Priority::Normal
    }
}

/// Why an evidence request failed.
#[derive(Debug, Clone, Copy, PartialEq, Eq, Structural)]
pub enum ErrorType {
    FileNotFound,
    PageOutOfRange,
    MemoryExhausted,
    TimeoutExceeded,
    ParsingFailed,
    WorkerUnavailable,
}

/// A UI request for an evidence crop; the box is [x, y, width, height] in
/// quantized PDF units.
#[derive(Debug, Clone)]
pub struct EvidenceRequest {
    pub request_id: String,
    pub file_path: String,
    pub page_index: usize,
    pub bbox: [i32; 4],
    pub dpi: u16,
    pub priority: Priority,
}

/// A served crop.
#[derive(Debug, Clone)]
pub struct EvidenceSuccess {
    pub request_id: String,
    pub data_base64: String,
    pub mime_type: String,
    pub width: u32,
    pub height: u32,
    pub is_cache_hit: bool,
}

/// A queued request.
#[derive(Debug, Clone)]
pub struct EvidencePending {
    pub request_id: String,
    pub queue_position: usize,
    pub estimated_wait_ms: u64,
}

/// A failed request.
#[derive(Debug, Clone)]
pub struct EvidenceError {
    pub request_id: String,
    pub error_type: ErrorType,
    pub message: String,
    pub retry_after_ms: Option<u64>,
}

/// The answer to an evidence request.
#[derive(Debug, Clone)]
pub enum EvidenceResponse {
    Success(EvidenceSuccess),
    Pending(EvidencePending),
    Failed(EvidenceError),
}

impl EvidenceResponse {
    pub fn success(
        request_id: String,
        data_base64: String,
        mime_type: String,
        dimensions: (u32, u32),
        is_cache_hit: bool,
    ) -> (r: EvidenceResponse)
        ensures
            r matches EvidenceResponse::Success(s) && s.request_id == request_id && s.data_base64
                == data_base64 && s.mime_type == mime_type && s.width == dimensions.0 && s.height == dimensions.1
                && s.is_cache_hit == is_cache_hit,
    {
        EvidenceResponse::Success(
            EvidenceSuccess {
                request_id,
                data_base64,
                mime_type,
                width: dimensions.0,
                height: dimensions.1,
                is_cache_hit,
            },
        )
    }

    pub fn pending(request_id: String, queue_position: usize, estimated_wait_ms: u64) -> (r: EvidenceResponse)
        ensures
            r matches EvidenceResponse::Pending(p) && p.request_id == request_id && p.queue_position
                == queue_position && p.estimated_wait_ms == estimated_wait_ms,
    {
        EvidenceResponse::Pending(EvidencePending { request_id, queue_position, estimated_wait_ms })
    }

    pub fn error(
        request_id: String,
        error_type: ErrorType,
        message: String,
        retry_after_ms: Option<u64>,
    ) -> (r: EvidenceResponse)
        ensures
            r matches EvidenceResponse::Failed(e) && e.request_id == request_id && e.error_type
                == error_type && e.message == message && e.retry_after_ms == retry_after_ms,
    {
        EvidenceResponse::Failed(EvidenceError { request_id, error_type, message, retry_after_ms })
    }
}

/// Error details reported by a worker.
#[derive(Debug, Clone)]
pub struct WorkerErrorDetail {
    pub error_type: String,
    pub message: String,
    pub traceback: Option<String>,
}

/// The ready signal of a worker.
#[derive(Debug, Clone)]
pub struct WorkerReadyMessage {
    pub msg_type: String,
    pub event: String,
    pub version: String,
    pub pid: u32,
    pub capabilities: Vec<String>,
    pub worker_id: String,
}

/// Kinds of worker RPC messages.
#[derive(Debug, Clone, Copy, PartialEq, Eq, Structural)]
pub enum MessageType {
    CmdHandshake,
    ResHandshake,
    CmdPing,
    ResPong,
    CmdExtractEvidence,
    CmdParseTable,
    ResSuccess,
    ResProgress,
    ResError,
    CmdShutdown,
    ResAck,
}

/// Where a worker found a result.
#[derive(Debug, Clone, Copy, PartialEq, Eq, Structural)]
pub enum CacheHit {
    Memory,
    Disk,
    Miss,
}

/// Handshake request payload.
#[derive(Debug, Clone)]
pub struct HandshakeRequestPayload {
    pub rust_version: String,
    pub expected_protocol_v: String,
    pub capabilities_requested: Vec<String>,
}

/// Handshake acknowledgement payload.
#[derive(Debug, Clone)]
pub struct HandshakeResponsePayload {
    pub worker_pid: u32,
    pub docling_version: String,
    pub python_version: String,
    pub capabilities_supported: Vec<String>,
    pub max_memory_mb: u32,
    pub status: String,
}

/// Severity of a worker error.
#[derive(Debug, Clone, Copy, PartialEq, Eq, Structural)]
pub enum ErrorSeverity {
    Fatal,
    Error,
    Warning,
    Info,
}

/// Kinds of ingested documents.
#[derive(Debug, Clone, Copy, PartialEq, Eq, Structural)]
pub enum DocType {
    BoqRaw,
    ContractRaw,
    InvoiceMetadata,
    AcceptanceLogRaw,
}

/// An ingested document as handed to business logic.
#[derive(Debug, Clone)]
pub struct IngestionObject {
    pub source: String,
    pub project_uuid: String,
    pub document_type: DocType,
    pub content: String,
    pub checksum: String,
    pub origin_signature: String,
}

/// The four little-endian bytes of `v`.
pub open spec fn le_bytes(v: u32) -> Seq<u8> {
    seq![(v % 256) as u8, ((v / 256) % 256) as u8, ((v / 65536) % 256) as u8, ((v / 16777216) % 256) as u8]
}

/// The sixteen bytes a quantized box is hashed over.
pub open spec fn bbox_bytes(b: [i32; 4]) -> Seq<u8> {
    le_bytes(b@[0] as u32) + le_bytes(b@[1] as u32) + le_bytes(b@[2] as u32) + le_bytes(b@[3] as u32)
}

/// The box component of a cache key: FNV-1a of the box bytes, in sixteen
/// hexadecimal digits.
pub open spec fn bbox_hash_of(b: [i32; 4]) -> Seq<char> {
    hex_fixed(fnv1a(bbox_bytes(b)) as nat, 16)
}

/// FNV-1a of `bytes`.
pub fn fnv1a_bytes(bytes: &Vec<u8>) -> (r: u64)
    ensures
        r == fnv1a(bytes@),
{
    let mut hash: u64 = crate::warrant::FNV_OFFSET;
    let mut i: usize = 0;
    while i < bytes.len()
        invariant
            i <= bytes@.len(),
            hash == fnv1a(bytes@.subrange(0, i as int)),
        decreases bytes@.len() - i,
    {
        assert(bytes@.subrange(0, i + 1).drop_last() =~= bytes@.subrange(0, i as int));
        hash = hash ^ (bytes[i] as u64);
        hash = hash.wrapping_mul(crate::warrant::FNV_PRIME);
        i = i + 1;
    }
    assert(bytes@.subrange(0, i as int) =~= bytes@);
    hash
}

fn push_le(v: &mut Vec<u8>, x: u32)
    ensures
        final(v)@ == old(v)@ + le_bytes(x),
{
    v.push((x % 256) as u8);
    v.push(((x / 256) % 256) as u8);
    v.push(((x / 65536) % 256) as u8);
    v.push(((x / 16777216) % 256) as u8);
    assert(v@ =~= old(v)@ + le_bytes(x));
}

/// The key of a cached artifact: source fingerprint, page, resolution and
/// box.
#[derive(Debug, Clone, Hash, PartialEq, Eq)]
pub struct CacheKey {
    pub file_hash: String,
    pub page_num: usize,
    pub dpi: u16,
    pub bbox_hash: String,
}

/// The string form of a key: its four parts joined by colons.
pub open spec fn string_key_of(file_hash: Seq<char>, page_num: usize, dpi: u16, bbox_hash: Seq<char>) -> Seq<char> {
    file_hash + ":"@ + decimal(page_num as nat) + ":"@ + decimal(dpi as nat) + ":"@ + bbox_hash
}

impl CacheKey {
    /// The key for a crop of `bbox` on page `page_num` of the file with
    /// fingerprint `file_hash` at `dpi`.
    pub fn new(file_hash: &str, page_num: usize, dpi: u16, bbox: &[i32; 4]) -> (r: CacheKey)
        ensures
            r.file_hash@ == file_hash@,
            r.page_num == page_num,
            r.dpi == dpi,
            r.bbox_hash@ == bbox_hash_of(*bbox),
    {
        let mut bytes: Vec<u8> = Vec::new();
        push_le(&mut bytes, bbox[0] as u32);
        push_le(&mut bytes, bbox[1] as u32);
        push_le(&mut bytes, bbox[2] as u32);
        push_le(&mut bytes, bbox[3] as u32);
        assert(bytes@ =~= bbox_bytes(*bbox));
        let h = fnv1a_bytes(&bytes);
        CacheKey {
            file_hash: string_of(&chars_of(file_hash)),
            page_num,
            dpi,
            bbox_hash: string_of(&hex16(h)),
        }
    }

    /// `file_hash:page:dpi:bbox_hash`.
    pub fn to_string_key(&self) -> (r: String)
        ensures
            r@ == string_key_of(self.file_hash@, self.page_num, self.dpi, self.bbox_hash@),
    {
        let mut v = chars_of(self.file_hash.as_str());
        push_text(&mut v, ":");
        push_chars(&mut v, &decimal_chars(self.page_num as u64));
        push_text(&mut v, ":");
        push_chars(&mut v, &decimal_chars(self.dpi as u64));
        push_text(&mut v, ":");
        push_text(&mut v, self.bbox_hash.as_str());
        assert(v@ =~= string_key_of(self.file_hash@, self.page_num, self.dpi, self.bbox_hash@));
        string_of(&v)
    }
}

} // verus!
