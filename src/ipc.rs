use vstd::prelude::*;

use crate::protocol::MessageType;

verus! {

/// Version of the worker RPC envelope.
pub open spec fn protocol_version() -> Seq<char> {
    "1.0.0"@
}

/// Relies on `uuid::Uuid::new_v4`: a fresh random id, as its 128-bit value.
#[verifier::external_body]
fn new_message_id() -> (r: u128) {
    uuid::Uuid::new_v4().as_u128()
}

/// Relies on chrono's `From<SystemTime>` for `DateTime<Utc>` and
/// `timestamp_millis`: the current time in milliseconds since the UNIX epoch,
/// negative for a clock set before it.
#[verifier::external_body]
fn now_millis() -> (r: i64) {
    chrono::DateTime::<chrono::Utc>::from(std::time::SystemTime::now()).timestamp_millis()
}

/// The envelope of every worker RPC message.
#[derive(Debug, Clone)]
pub struct IpcMessage<T> {
    pub protocol_v: String,
    pub msg_id: u128,
    pub timestamp: i64,
    pub msg_type: MessageType,
    pub payload: T,
}

impl<T> IpcMessage<T> {
    /// A message of `msg_type` carrying `payload`, under the current protocol
    /// version, a fresh id and the current time.
    pub fn new(msg_type: MessageType, payload: T) -> (r: IpcMessage<T>)
        ensures
            r.protocol_v@ == protocol_version(),
            r.msg_type == msg_type,
            r.payload == payload,
    {
        let msg_id = new_message_id();
        let timestamp = now_millis();
        IpcMessage { protocol_v: String::from_str("1.0.0"), msg_id, timestamp, msg_type, payload }
    }

    /// A message with the given id and time; see `new`.
    pub fn with_id(msg_type: MessageType, payload: T, msg_id: u128, timestamp: i64) -> (r: IpcMessage<T>)
        ensures
            r.protocol_v@ == protocol_version(),
            r.msg_id == msg_id,
            r.timestamp == timestamp,
            r.msg_type == msg_type,
            r.payload == payload,
    {
        IpcMessage { protocol_v: String::from_str("1.0.0"), msg_id, timestamp, msg_type, payload }
    }
}

} // verus!
