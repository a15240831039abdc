use vstd::prelude::*;

use crate::protocol::MessageType;

verus! {

/// What an inbound worker message amounts to.
#[derive(Debug, Clone, Copy, PartialEq, Eq, Structural)]
pub enum RouterEvent {
    /// A response for an awaited request: hand it to the waiter.
    Delivered(u128),
    /// A response for a request nobody awaits (late or spurious): drop it.
    Dropped(u128),
    /// The worker finished its handshake and is ready.
    WorkerReady,
    /// A progress report for a long request.
    Progress,
    /// A success or error response without a readable request id, or a
    /// message type a worker does not send.
    Unhandled,
}

/// The event an inbound message of `msg_type` carrying `req_id` gives, when
/// the awaited ids are `pending`.
pub open spec fn event_of(msg_type: MessageType, req_id: Option<u128>, pending: Seq<u128>) -> RouterEvent {
    match msg_type {
        MessageType::ResSuccess | MessageType::ResError => match req_id {
            Some(id) => if pending.contains(id) {
                RouterEvent::Delivered(id)
            } else {
                RouterEvent::Dropped(id)
            },
            None => RouterEvent::Unhandled,
        },
        MessageType::ResHandshake => RouterEvent::WorkerReady,
        MessageType::ResProgress => RouterEvent::Progress,
        _ => RouterEvent::Unhandled,
    }
}

/// Correlates outbound requests with inbound responses by request id. The
/// host keeps one waiter per registered id; the table decides which
/// responses reach a waiter.
#[derive(Debug)]
pub struct MessageRouter {
    /// Ids awaiting a response, each once.
    pending: Vec<u128>,
}

impl MessageRouter {
    /// The ids awaiting a response.
    pub closed spec fn spec_pending(&self) -> Seq<u128> {
        self.pending@
    }

    pub open spec fn wf(&self) -> bool {
        self.spec_pending().no_duplicates()
    }

    pub fn new() -> (r: MessageRouter)
        ensures
            r.wf(),
            r.spec_pending().len() == 0,
    {
        let r = MessageRouter { pending: Vec::new() };
        assert(r.pending@.len() == 0);
        r
    }

    fn position(&self, req_id: u128) -> (r: Option<usize>)
        ensures
            match r {
                Some(i) => i < self.pending@.len() && self.pending@[i as int] == req_id,
                None => !self.pending@.contains(req_id),
            },
    {
        let mut i: usize = 0;
        while i < self.pending.len()
            invariant
                i <= self.pending@.len(),
                forall|k: int| 0 <= k < i ==> self.pending@[k] != req_id,
            decreases self.pending@.len() - i,
        {
            if self.pending[i] == req_id {
                return Some(i);
            }
            i = i + 1;
        }
        None
    }

    /// Starts waiting for a response to `req_id`. Returns false, changing
    /// nothing, when the id is already awaited.
    pub fn register_request(&mut self, req_id: u128) -> (r: bool)
        requires
            old(self).wf(),
        ensures
            final(self).wf(),
            r == !old(self).spec_pending().contains(req_id),
            r ==> final(self).spec_pending() == old(self).spec_pending().push(req_id),
            !r ==> final(self).spec_pending() == old(self).spec_pending(),
    {
        if self.position(req_id).is_some() {
            return false;
        }
        self.pending.push(req_id);
        true
    }

    /// An inbound response for `req_id`: true when a waiter was registered,
    /// which is then resolved and forgotten; false for a late or spurious
    /// response, which is dropped.
    pub fn resolve_request(&mut self, req_id: u128) -> (r: bool)
        requires
            old(self).wf(),
        ensures
            final(self).wf(),
            r == old(self).spec_pending().contains(req_id),
            !final(self).spec_pending().contains(req_id),
            forall|x: u128| x != req_id ==> (final(self).spec_pending().contains(x) <==> old(self).spec_pending().contains(x)),
    {
        match self.position(req_id) {
            None => false,
            Some(i) => {
                let ghost s0 = self.pending@;
                self.pending.remove(i);
                proof {
                    let s1 = self.pending@;
                    assert(s1 =~= s0.remove(i as int));
                    assert forall|x: u128| x != req_id implies (s1.contains(x) <==> s0.contains(x)) by {
                        if s0.contains(x) {
                            let k = choose|k: int| 0 <= k < s0.len() && s0[k] == x;
                            if k < i {
                                assert(s1[k] == x);
                            } else {
                                assert(k != i);
                                assert(s1[k - 1] == x);
                            }
                        }
                        if s1.contains(x) {
                            let k = choose|k: int| 0 <= k < s1.len() && s1[k] == x;
                            if k < i {
                                assert(s0[k] == x);
                            } else {
                                assert(s0[k + 1] == x);
                            }
                        }
                    }
                    assert(!s1.contains(req_id)) by {
                        if s1.contains(req_id) {
                            let k = choose|k: int| 0 <= k < s1.len() && s1[k] == req_id;
                            if k < i {
                                assert(s0[k] == s0[i as int]);
                            } else {
                                assert(s0[k + 1] == s0[i as int]);
                            }
                        }
                    }
                }
                true
            },
        }
    }

    /// How many responses are awaited.
    pub fn pending_count(&self) -> (r: usize)
        ensures
            r == self.spec_pending().len(),
    {
        self.pending.len()
    }
}

impl MessageRouter {
    /// Routes an inbound message of `msg_type` whose payload carried `req_id`
    /// (`None` when the payload had no readable id). Success and error
    /// responses resolve their request if it is awaited, and are dropped
    /// otherwise; a handshake marks the worker ready; progress is forwarded.
    pub fn dispatch(&mut self, msg_type: MessageType, req_id: Option<u128>) -> (r: RouterEvent)
        requires
            old(self).wf(),
        ensures
            final(self).wf(),
            r == event_of(msg_type, req_id, old(self).spec_pending()),
            r matches RouterEvent::Delivered(id) ==> !final(self).spec_pending().contains(id) && forall|x: u128|
                x != id ==> (final(self).spec_pending().contains(x) <==> old(self).spec_pending().contains(x)),
            !(r is Delivered) ==> final(self).spec_pending() == old(self).spec_pending(),
    {
        match msg_type {
            MessageType::ResSuccess | MessageType::ResError => match req_id {
                Some(id) => {
                    if self.position(id).is_some() {
                        self.resolve_request(id);
                        RouterEvent::Delivered(id)
                    } else {
                        RouterEvent::Dropped(id)
                    }
                },
                None => RouterEvent::Unhandled,
            },
            MessageType::ResHandshake => RouterEvent::WorkerReady,
            MessageType::ResProgress => RouterEvent::Progress,
            _ => RouterEvent::Unhandled,
        }
    }
}

} // verus!
