//! The decisions of the download pipeline.
//!
//! The pipeline listens on the request queue and answers every request once,
//! on the request's own channel. The waiting (for the next request, for the
//! network, for the pause of the slow mode) is the caller's part; what to do
//! next is decided here.

use crate::async_resource_manager::{DownloadRequest, DownloadResponse, Reply};
use crate::channels::{payload_bytes, send_reply};
use bytes::Bytes;
use tokio::sync::oneshot;
use vstd::prelude::*;

verus! {

/// The pause, in milliseconds, by which the slow mode holds every reply back.
pub const SLOW_REPLY_DELAY_MILLIS: u64 = 2000;

/// How the loop takes up a request that it has received.
#[derive(Clone, Copy, PartialEq, Eq, Debug, Structural)]
pub enum Dispatch {
    /// Handle it to the end before the next request is received.
    Inline,
    /// Hand it to a task of its own and go on receiving at once.
    Detached,
}

/// The listening loop of the pipeline.
pub struct DownloadLoop {
    slow: bool,
    bounded: bool,
    busy: bool,
    listening: bool,
}

/// What the listening loop is doing.
pub struct LoopState {
    /// Replies are held back by a pause.
    pub slow: bool,
    /// Requests are handled one at a time.
    pub bounded: bool,
    /// A request is being handled to the end; nothing is received meanwhile.
    pub busy: bool,
    /// The request queue is open.
    pub listening: bool,
}

impl LoopState {
    /// Only a bounded loop is ever busy.
    pub open spec fn wf(self) -> bool {
        self.busy ==> self.bounded
    }

    /// The loop may take the next request from the queue.
    pub open spec fn can_receive(self) -> bool {
        self.listening && !self.busy
    }

    /// How a request received now is taken up.
    pub open spec fn dispatch(self) -> Dispatch {
        if self.bounded {
            Dispatch::Inline
        } else {
            Dispatch::Detached
        }
    }

    /// The state after a request was received.
    pub open spec fn after_request(self) -> Self {
        LoopState { busy: self.bounded, ..self }
    }

    /// The state after the request that kept the loop busy was answered.
    pub open spec fn after_finished(self) -> Self {
        LoopState { busy: false, ..self }
    }

    /// The state after the request queue was closed.
    pub open spec fn after_queue_closed(self) -> Self {
        LoopState { listening: false, ..self }
    }
}

impl View for DownloadLoop {
    type V = LoopState;

    closed spec fn view(&self) -> LoopState {
        LoopState {
            slow: self.slow,
            bounded: self.bounded,
            busy: self.busy,
            listening: self.listening,
        }
    }
}

impl DownloadLoop {
    /// A loop that listens and has no request in hand.
    pub fn new(slow: bool, bounded: bool) -> (pipeline: Self)
        ensures
            pipeline@ == (LoopState { slow, bounded, busy: false, listening: true }),
            pipeline@.wf(),
    {
        DownloadLoop { slow, bounded, busy: false, listening: true }
    }

    pub fn slow(&self) -> (slow: bool)
        ensures
            slow == self@.slow,
    {
        self.slow
    }

    pub fn bounded(&self) -> (bounded: bool)
        ensures
            bounded == self@.bounded,
    {
        self.bounded
    }

    /// Whether a request is being handled to the end.
    pub fn is_busy(&self) -> (busy: bool)
        ensures
            busy == self@.busy,
    {
        self.busy
    }

    /// Whether the loop may take the next request from the queue.
    pub fn can_receive(&self) -> (free: bool)
        ensures
            free == self@.can_receive(),
    {
        self.listening && !self.busy
    }

    /// A request was received: says how to take it up. A bounded loop is busy
    /// from now on, until the request has been answered.
    pub fn on_request(&mut self) -> (dispatch: Dispatch)
        requires
            old(self)@.wf(),
            old(self)@.can_receive(),
        ensures
            dispatch == old(self)@.dispatch(),
            final(self)@ == old(self)@.after_request(),
            final(self)@.wf(),
    {
        if self.bounded {
            self.busy = true;
            Dispatch::Inline
        } else {
            Dispatch::Detached
        }
    }

    /// The request that kept the loop busy has been answered.
    pub fn on_finished(&mut self)
        requires
            old(self)@.wf(),
            old(self)@.busy,
        ensures
            final(self)@ == old(self)@.after_finished(),
            final(self)@.wf(),
    {
        self.busy = false;
    }

    /// The request queue was closed: the loop ends. This is how the pipeline
    /// is meant to stop, and no failure.
    pub fn on_queue_closed(&mut self)
        requires
            old(self)@.wf(),
        ensures
            final(self)@ == old(self)@.after_queue_closed(),
            final(self)@.wf(),
    {
        self.listening = false;
    }
}

/// A bounded loop handles one request at a time: once it has taken a request
/// up it receives no other, until that request has been answered.
pub proof fn lemma_bounded_serializes(s: LoopState)
    requires
        s.wf(),
        s.bounded,
        s.can_receive(),
    ensures
        s.dispatch() == Dispatch::Inline,
        !s.after_request().can_receive(),
        s.after_request().after_finished().can_receive(),
        s.after_request().after_finished() == s,
{
}

/// An unbounded loop takes the next request up while the earlier ones are
/// still being handled.
pub proof fn lemma_unbounded_overlaps(s: LoopState)
    requires
        s.wf(),
        !s.bounded,
        s.can_receive(),
    ensures
        s.dispatch() == Dispatch::Detached,
        s.after_request() == s,
        s.after_request().can_receive(),
{
}

/// Once the queue is closed the loop receives nothing more.
pub proof fn lemma_closed_queue_ends_loop(s: LoopState)
    ensures
        !s.after_queue_closed().can_receive(),
        !s.after_queue_closed().after_request().can_receive(),
        !s.after_queue_closed().after_finished().can_receive(),
{
}

/// A request whose fetch is under way.
pub struct Fetching {
    channel: oneshot::Sender<Reply>,
    slow: bool,
}

/// A request whose fetch has ended: the reply, and the pause to hold it for.
pub struct Held {
    channel: oneshot::Sender<Reply>,
    reply: Reply,
    delay_millis: u64,
}

/// What a fetch that ended with `fetched` is answered with: the payload, or
/// nothing when the fetch failed.
pub open spec fn reply_to(fetched: Option<Bytes>) -> Option<Seq<u8>> {
    match fetched {
        Some(bytes) => Some(payload_bytes(bytes)),
        None => None,
    }
}

/// The pause, in milliseconds, to hold a reply for.
pub open spec fn delay_for(slow: bool) -> u64 {
    if slow {
        SLOW_REPLY_DELAY_MILLIS
    } else {
        0
    }
}

/// Takes a request up: returns the URL to fetch and the request in its
/// fetching stage.
pub fn handle_request(request: DownloadRequest, slow: bool) -> (out: (String, Fetching))
    ensures
        out.0@ == request.url@,
        out.1.channel() == request.response_channel,
        out.1.slow() == slow,
{
    let DownloadRequest { url, response_channel } = request;
    (url, Fetching { channel: response_channel, slow })
}

impl Fetching {
    /// The channel on which the request is answered.
    pub closed spec fn channel(&self) -> oneshot::Sender<Reply> {
        self.channel
    }

    /// Whether the reply is held back by a pause.
    pub closed spec fn slow(&self) -> bool {
        self.slow
    }

    /// The fetch has ended, with the payload or without one. A failed fetch
    /// is answered too, with nothing: the failure is the requester's to deal
    /// with, and the pipeline goes on.
    pub fn fetched(self, payload: Option<Bytes>) -> (held: Held)
        ensures
            held.channel() == self.channel(),
            held.reply() == reply_to(payload),
            held.delay() == delay_for(self.slow()),
    {
        let reply = match payload {
            Some(bytes) => Some(DownloadResponse { bytes }),
            None => None,
        };
        let delay_millis = if self.slow {
            SLOW_REPLY_DELAY_MILLIS
        } else {
            0
        };
        Held { channel: self.channel, reply, delay_millis }
    }
}

impl Held {
    /// The channel on which the request is answered.
    pub closed spec fn channel(&self) -> oneshot::Sender<Reply> {
        self.channel
    }

    /// The bytes of the reply, or nothing for a failed fetch.
    pub closed spec fn reply(&self) -> Option<Seq<u8>> {
        match self.reply {
            Some(response) => Some(response@),
            None => None,
        }
    }

    /// The pause, in milliseconds, to hold the reply for.
    pub closed spec fn delay(&self) -> u64 {
        self.delay_millis
    }

    /// The pause, in milliseconds, to make before the reply is delivered.
    pub fn delay_millis(&self) -> (millis: u64)
        ensures
            millis == self.delay(),
    {
        self.delay_millis
    }

    /// Whether the fetch failed, so that the reply carries nothing.
    pub fn is_failure(&self) -> (failed: bool)
        ensures
            failed == (self.reply() is None),
    {
        self.reply.is_none()
    }

    /// Sends the reply, which uses the channel up. Returns whether the
    /// requester took it: a requester that has given up is no failure of the
    /// pipeline.
    pub fn deliver(self) -> (delivered: bool) {
        send_reply(self.channel, self.reply)
    }
}

} // verus!
