//! The request multiplexer: allocates request ids, keeps the table of calls
//! that wait for a reply, and hands each reply to the call it belongs to.
//!
//! The waiter `W` is whatever completion handle the runtime uses; the table
//! only stores, returns and drops it.
use std::collections::HashMap;
use vstd::prelude::*;
use crate::message::{Call, CallError, Request, Response};

verus! {

broadcast use vstd::std_specs::hash::group_hash_axioms;

/// How long a call waits for its reply before it fails.
pub const CALL_TIMEOUT_SECS: u64 = 30;

/// The pending table after a received frame: a decoded reply removes the
/// entry of its id, if there is one; an undecodable frame changes nothing.
pub open spec fn after_receive<W>(pending: Map<u64, W>, frame: Option<Response>) -> Map<u64, W> {
    match frame {
        Some(resp) => pending.remove(resp.id),
        None => pending,
    }
}

/// The waiter that a received frame is delivered to, if any.
pub open spec fn delivered_to<W>(pending: Map<u64, W>, frame: Option<Response>) -> Option<W> {
    match frame {
        Some(resp) => if pending.contains_key(resp.id) {
            Some(pending[resp.id])
        } else {
            None
        },
        None => None,
    }
}

/// What the receiver does with one frame.
pub enum Delivery<W> {
    /// Hand the reply to this waiter.
    Deliver(W, Response),
    /// No call waits for this id (unknown, repeated or timed out): drop it.
    Discarded(u64),
    /// The frame did not decode: drop it.
    Malformed,
}

/// How a call's wait for its reply ended.
pub enum WaitOutcome {
    Replied(Response),
    /// The waiter was dropped without a reply: the link closed.
    Dropped,
    TimedOut,
}

/// The life of the one connection to the peer. `Closed` is final: a link
/// that failed is never taken up again.
#[derive(Clone, Copy, Debug, PartialEq, Eq, Structural)]
pub enum ConnState {
    WaitingForPeer,
    Connected,
    Closed,
}

impl ConnState {
    /// The peer's connection was accepted. Only a daemon still waiting for
    /// its peer takes it.
    pub fn on_accept(self) -> (r: ConnState)
        ensures
            self == ConnState::WaitingForPeer ==> r == ConnState::Connected,
            self != ConnState::WaitingForPeer ==> r == self,
    {
        match self {
            ConnState::WaitingForPeer => ConnState::Connected,
            other => other,
        }
    }

    /// A read from the link failed or found its end.
    pub fn on_read_failure(self) -> (r: ConnState)
        ensures
            self == ConnState::WaitingForPeer ==> r == self,
            self != ConnState::WaitingForPeer ==> r == ConnState::Closed,
    {
        match self {
            ConnState::WaitingForPeer => ConnState::WaitingForPeer,
            _ => ConnState::Closed,
        }
    }
}

/// Correlation state of one connection.
pub struct Multiplexer<W> {
    last_id: u64,
    closed: bool,
    pending: HashMap<u64, W>,
}

impl<W> Multiplexer<W> {
    /// The last id handed out; 0 before the first call.
    pub closed spec fn last_id(&self) -> u64 {
        self.last_id
    }

    /// Whether the link has closed.
    pub closed spec fn is_closed(&self) -> bool {
        self.closed
    }

    /// The waiting calls, by request id.
    pub closed spec fn pending(&self) -> Map<u64, W> {
        self.pending@
    }

    /// Every waiting id was handed out, and a closed link has no waiters.
    pub open spec fn wf(&self) -> bool {
        &&& forall|id: u64| #[trigger] self.pending().contains_key(id) ==> 1 <= id <= self.last_id()
        &&& self.is_closed() ==> self.pending().is_empty()
    }

    pub fn new() -> (r: Self)
        ensures
            r.wf(),
            r.last_id() == 0,
            !r.is_closed(),
            r.pending() == Map::<u64, W>::empty(),
    {
        Multiplexer { last_id: 0, closed: false, pending: HashMap::new() }
    }

    /// Gives a call the next id and registers its waiter, before anything is
    /// written. Fails on a closed link, and when the ids are used up.
    pub fn start_call(&mut self, call: Call, waiter: W) -> (r: Result<Request, CallError>)
        requires
            old(self).wf(),
        ensures
            final(self).wf(),
            final(self).is_closed() == old(self).is_closed(),
            r is Ok <==> !old(self).is_closed() && old(self).last_id() < u64::MAX,
            r matches Ok(req) ==> {
                &&& req.id == old(self).last_id() + 1
                &&& final(self).last_id() == req.id
                &&& !old(self).pending().contains_key(req.id)
                &&& final(self).pending() == old(self).pending().insert(req.id, waiter)
                &&& req.operation == call.operation
                &&& req.path == call.path
                &&& req.data == call.data
                &&& req.offset == call.offset
                &&& req.size == call.size
            },
            r matches Err(e) ==> {
                &&& e is Connection
                &&& final(self).last_id() == old(self).last_id()
                &&& final(self).pending() == old(self).pending()
            },
    {
        if self.closed || self.last_id == u64::MAX {
            return Err(CallError::Connection);
        }
        let id: u64 = self.last_id + 1;
        self.last_id = id;
        self.pending.insert(id, waiter);
        assert forall|k: u64| #[trigger] self.pending().contains_key(k) implies 1 <= k
            <= self.last_id() by {
            if k != id {
                assert(old(self).pending().contains_key(k));
            }
        }
        Ok(Request {
            id,
            operation: call.operation,
            path: call.path,
            data: call.data,
            offset: call.offset,
            size: call.size,
        })
    }

    /// Removes the waiter of a call that gave up (its write failed or its
    /// time ran out). Returns whether it was still waiting.
    pub fn abandon(&mut self, id: u64) -> (r: bool)
        requires
            old(self).wf(),
        ensures
            final(self).wf(),
            r == old(self).pending().contains_key(id),
            final(self).pending() == old(self).pending().remove(id),
            final(self).last_id() == old(self).last_id(),
            final(self).is_closed() == old(self).is_closed(),
    {
        let r = self.pending.remove(&id).is_some();
        assert forall|k: u64| #[trigger] self.pending().contains_key(k) implies 1 <= k
            <= self.last_id() by {
            assert(old(self).pending().contains_key(k));
        }
        assert(self.is_closed() ==> self.pending().dom() =~= Set::<u64>::empty()) by {
            if self.is_closed() {
                assert forall|k: u64| !#[trigger] self.pending().contains_key(k) by {
                    if self.pending().contains_key(k) {
                        assert(old(self).pending().contains_key(k));
                    }
                }
            }
        }
        r
    }

    /// Handles one frame read from the link: `None` stands for a frame that
    /// did not decode.
    pub fn receive(&mut self, frame: Option<Response>) -> (r: Delivery<W>)
        requires
            old(self).wf(),
        ensures
            final(self).wf(),
            final(self).pending() == after_receive(old(self).pending(), frame),
            final(self).last_id() == old(self).last_id(),
            final(self).is_closed() == old(self).is_closed(),
            r is Deliver <==> delivered_to(old(self).pending(), frame) is Some,
            r matches Delivery::Deliver(w, resp) ==> {
                &&& frame == Some(resp)
                &&& delivered_to(old(self).pending(), frame) == Some(w)
            },
            r matches Delivery::Discarded(id) ==> {
                &&& frame matches Some(resp) && resp.id == id
                &&& !old(self).pending().contains_key(id)
            },
            r is Malformed <==> frame is None,
    {
        match frame {
            None => Delivery::Malformed,
            Some(resp) => {
                let id = resp.id;
                match self.pending.remove(&id) {
                    Some(w) => Delivery::Deliver(w, resp),
                    None => Delivery::Discarded(id),
                }
            },
        }
    }

    /// The write of call `id`'s frame ended. A call whose write failed gives
    /// up at once with a connection error, and its waiter is removed.
    pub fn sent(&mut self, id: u64, written: bool) -> (r: Result<(), CallError>)
        requires
            old(self).wf(),
        ensures
            final(self).wf(),
            final(self).last_id() == old(self).last_id(),
            final(self).is_closed() == old(self).is_closed(),
            written ==> r is Ok && final(self).pending() == old(self).pending(),
            !written ==> r == Err::<(), CallError>(CallError::Connection) && final(self).pending()
                == old(self).pending().remove(id),
    {
        if written {
            Ok(())
        } else {
            self.abandon(id);
            Err(CallError::Connection)
        }
    }

    /// The wait of call `id` ended with `outcome`. A call whose time ran out
    /// has its waiter removed, so that a late reply is discarded.
    pub fn finish(&mut self, id: u64, outcome: WaitOutcome) -> (r: Result<Response, CallError>)
        requires
            old(self).wf(),
        ensures
            final(self).wf(),
            final(self).last_id() == old(self).last_id(),
            final(self).is_closed() == old(self).is_closed(),
            outcome is TimedOut ==> final(self).pending() == old(self).pending().remove(id),
            !(outcome is TimedOut) ==> final(self).pending() == old(self).pending(),
            r == call_result(outcome),
    {
        if let WaitOutcome::TimedOut = outcome {
            self.abandon(id);
        }
        complete_call(outcome)
    }

    /// The link closed: returns every waiting call's waiter, so that each
    /// fails at once, and refuses new calls from now on.
    pub fn close(&mut self) -> (r: HashMap<u64, W>)
        requires
            old(self).wf(),
        ensures
            final(self).wf(),
            r@ == old(self).pending(),
            final(self).pending() == Map::<u64, W>::empty(),
            final(self).is_closed(),
            final(self).last_id() == old(self).last_id(),
    {
        let mut taken: HashMap<u64, W> = HashMap::new();
        std::mem::swap(&mut taken, &mut self.pending);
        self.closed = true;
        taken
    }
}

/// The result of a call whose wait ended with `outcome`: a reply with a
/// non-empty error is a failure of the peer, not a success.
pub open spec fn call_result(outcome: WaitOutcome) -> Result<Response, CallError> {
    match outcome {
        WaitOutcome::Replied(resp) => if resp.error@.len() == 0 {
            Ok(resp)
        } else {
            Err(CallError::Application(resp.error))
        },
        WaitOutcome::Dropped => Err(CallError::Connection),
        WaitOutcome::TimedOut => Err(CallError::Timeout),
    }
}

/// Turns the end of a call's wait into its result.
pub fn complete_call(outcome: WaitOutcome) -> (r: Result<Response, CallError>)
    ensures
        r == call_result(outcome),
{
    match outcome {
        WaitOutcome::Replied(resp) => {
            if resp.error.as_str().is_empty() {
                Ok(resp)
            } else {
                let e = resp.error;
                Err(CallError::Application(e))
            }
        },
        WaitOutcome::Dropped => Err(CallError::Connection),
        WaitOutcome::TimedOut => Err(CallError::Timeout),
    }
}

/// A reply whose id waits is delivered to that id's waiter, and to no other
/// afterwards: a second reply with the same id finds no waiter.
pub proof fn lemma_delivered_once<W>(pending: Map<u64, W>, first: Response, again: Response)
    requires
        pending.contains_key(first.id),
        again.id == first.id,
    ensures
        delivered_to(pending, Some(first)) == Some(pending[first.id]),
        delivered_to(after_receive(pending, Some(first)), Some(again)) is None,
{
}

/// Once a call has given up and its waiter is removed, a late reply with
/// its id is discarded.
pub proof fn lemma_late_reply_discarded<W>(pending: Map<u64, W>, id: u64, late: Response)
    requires
        late.id == id,
    ensures
        delivered_to(pending.remove(id), Some(late)) is None,
        after_receive(pending.remove(id), Some(late)) == pending.remove(id),
{
    assert(pending.remove(id).remove(id) =~= pending.remove(id));
}

/// The pending table after a sequence of frames is received in order.
pub open spec fn after_all<W>(pending: Map<u64, W>, frames: Seq<Option<Response>>) -> Map<u64, W>
    decreases frames.len(),
{
    if frames.len() == 0 {
        pending
    } else {
        after_receive(after_all(pending, frames.drop_last()), frames.last())
    }
}

/// The waiter that the frame at position `i` is delivered to, when the
/// frames are received in order.
pub open spec fn delivered_at<W>(pending: Map<u64, W>, frames: Seq<Option<Response>>, i: int) -> Option<W> {
    delivered_to(after_all(pending, frames.take(i)), frames[i])
}

/// Whether the frame at position `j` decoded to a reply with id `id`.
pub open spec fn is_reply_to(frames: Seq<Option<Response>>, j: int, id: u64) -> bool {
    frames[j] is Some && frames[j]->Some_0.id == id
}

proof fn lemma_untouched<W>(pending: Map<u64, W>, frames: Seq<Option<Response>>, k: int, id: u64)
    requires
        0 <= k <= frames.len(),
        forall|j: int| 0 <= j < k ==> !is_reply_to(frames, j, id),
    ensures
        after_all(pending, frames.take(k)).contains_key(id) == pending.contains_key(id),
        pending.contains_key(id) ==> after_all(pending, frames.take(k))[id] == pending[id],
    decreases k,
{
    if k > 0 {
        lemma_untouched(pending, frames, k - 1, id);
        assert(frames.take(k).drop_last() =~= frames.take(k - 1));
        assert(!is_reply_to(frames, k - 1, id));
    } else {
        assert(frames.take(0).len() == 0);
    }
}

/// Replies to any number of waiting calls may come in any order, with
/// undecodable frames among them: each reply is delivered to its own call's
/// waiter, and each undecodable frame to none.
pub proof fn lemma_each_reply_to_its_caller<W>(pending: Map<u64, W>, frames: Seq<Option<Response>>)
    requires
        forall|i: int|
            0 <= i < frames.len() && #[trigger] frames[i] is Some ==> pending.contains_key(
                frames[i]->Some_0.id,
            ),
        forall|i: int, j: int|
            0 <= i < j < frames.len() && #[trigger] frames[i] is Some && #[trigger] frames[j] is Some
                ==> frames[i]->Some_0.id != frames[j]->Some_0.id,
    ensures
        forall|i: int|
            0 <= i < frames.len() ==> (#[trigger] delivered_at(pending, frames, i) == match frames[i] {
                Some(resp) => Some(pending[resp.id]),
                None => None,
            }),
{
    assert forall|i: int| 0 <= i < frames.len() implies (#[trigger] delivered_at(pending, frames, i)
        == match frames[i] {
        Some(resp) => Some(pending[resp.id]),
        None => None,
    }) by {
        if frames[i] is Some {
            let id = frames[i]->Some_0.id;
            assert forall|j: int| 0 <= j < i implies !is_reply_to(frames, j, id) by {
                if is_reply_to(frames, j, id) {
                    assert(frames[j] is Some);
                }
            }
            lemma_untouched(pending, frames, i, id);
        }
    }
}

proof fn lemma_removed_stays<W>(
    pending: Map<u64, W>,
    frames: Seq<Option<Response>>,
    i: int,
    k: int,
    id: u64,
)
    requires
        0 <= i < k <= frames.len(),
        is_reply_to(frames, i, id),
    ensures
        !after_all(pending, frames.take(k)).contains_key(id),
    decreases k,
{
    assert(frames.take(k).drop_last() =~= frames.take(k - 1));
    if k > i + 1 {
        lemma_removed_stays(pending, frames, i, k - 1, id);
    }
}

/// However many replies with one id arrive, with any frames between them,
/// the waiter of that id receives the first of them only: each later one is
/// delivered to no one and leaves the table as it was.
pub proof fn lemma_first_reply_only<W>(
    pending: Map<u64, W>,
    frames: Seq<Option<Response>>,
    id: u64,
    first: int,
)
    requires
        pending.contains_key(id),
        0 <= first < frames.len(),
        is_reply_to(frames, first, id),
        forall|j: int| 0 <= j < first ==> !is_reply_to(frames, j, id),
    ensures
        delivered_at(pending, frames, first) == Some(pending[id]),
        forall|j: int|
            first < j < frames.len() && is_reply_to(frames, j, id) ==> {
                &&& #[trigger] delivered_at(pending, frames, j) is None
                &&& after_all(pending, frames.take(j + 1)) == after_all(pending, frames.take(j))
            },
{
    lemma_untouched(pending, frames, first, id);
    assert forall|j: int| first < j < frames.len() && is_reply_to(frames, j, id) implies {
        &&& #[trigger] delivered_at(pending, frames, j) is None
        &&& after_all(pending, frames.take(j + 1)) == after_all(pending, frames.take(j))
    } by {
        lemma_removed_stays(pending, frames, first, j, id);
        let m = after_all(pending, frames.take(j));
        assert(frames.take(j + 1).drop_last() =~= frames.take(j));
        assert(m.remove(id) =~= m);
    }
}

/// A frame that does not decode, arriving between two replies, changes
/// nothing: both replies are delivered as if it had not come.
pub proof fn lemma_malformed_ignored<W>(pending: Map<u64, W>, a: Response, b: Response)
    ensures
        delivered_to(pending, None::<Response>) is None,
        after_receive(pending, None::<Response>) == pending,
        delivered_to(after_receive(after_receive(pending, Some(a)), None), Some(b))
            == delivered_to(after_receive(pending, Some(a)), Some(b)),
        after_receive(after_receive(after_receive(pending, Some(a)), None), Some(b))
            == after_receive(after_receive(pending, Some(a)), Some(b)),
{
}

/// On a closed link no reply is delivered to anyone.
pub proof fn lemma_closed_delivers_nothing<W>(mux: Multiplexer<W>, frame: Option<Response>)
    requires
        mux.wf(),
        mux.is_closed(),
    ensures
        delivered_to(mux.pending(), frame) is None,
{
    if let Some(resp) = frame {
        assert(!mux.pending().dom().contains(resp.id));
    }
}

} // verus!
