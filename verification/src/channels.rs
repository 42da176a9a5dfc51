//! The channel ends that connect the render loop to the download pipeline.
//!
//! Everything in this module is trusted: the types are opaque to the
//! verifier, and the contracts of the functions are taken from the
//! documentation of the channels, not proved.

use crate::async_resource_manager::{DownloadRequest, DownloadResponse, Reply};
use bytes::Bytes;
use std::rc::Rc;
use tokio::sync::mpsc;
use tokio::sync::oneshot;
use vstd::prelude::*;

verus! {

/// `bytes::Bytes`, a buffer of bytes. Opaque; see [`payload_bytes`].
#[verifier::external_type_specification]
#[verifier::external_body]
pub struct ExBytes(Bytes);

/// `tokio::sync::oneshot::Sender`, the sending end of a single-use channel.
#[verifier::external_type_specification]
#[verifier::external_body]
#[verifier::reject_recursive_types(T)]
pub struct ExReplySender<T>(oneshot::Sender<T>);

/// `tokio::sync::oneshot::Receiver`, the receiving end of a single-use channel.
#[verifier::external_type_specification]
#[verifier::external_body]
#[verifier::reject_recursive_types(T)]
pub struct ExReplyReceiver<T>(oneshot::Receiver<T>);

/// `tokio::sync::oneshot::error::RecvError`. Never used by this crate; the
/// receiver's awaiting form mentions it, so the verifier asks for it.
#[verifier::external_type_specification]
#[verifier::external_body]
pub struct ExRecvError(oneshot::error::RecvError);

/// `tokio::sync::mpsc::Sender`, the sending end of the bounded request queue.
#[verifier::external_type_specification]
#[verifier::external_body]
#[verifier::reject_recursive_types(T)]
pub struct ExQueueSender<T>(mpsc::Sender<T>);

/// The bytes that a buffer holds, in order.
pub uninterp spec fn payload_bytes(bytes: Bytes) -> Seq<u8>;

/// How an attempt to put a request on the queue ended.
#[derive(Clone, Copy, PartialEq, Eq, Debug, Structural)]
pub enum Enqueue {
    /// The request is on the queue.
    Accepted,
    /// The queue is at capacity; the request was dropped.
    Full,
    /// The pipeline is gone; no request will ever be accepted again.
    Closed,
}

/// What a non-waiting look at a reply channel found.
#[derive(Debug)]
pub enum Probe {
    /// The reply has arrived.
    Ready(Reply),
    /// No reply yet.
    Empty,
    /// The sender went away without replying.
    Closed,
}

/// Calls `tokio::sync::oneshot::channel`.
///
/// Nothing is claimed of the two ends.
#[verifier::external_body]
pub(crate) fn reply_channel() -> (ends: (oneshot::Sender<Reply>, oneshot::Receiver<Reply>)) {
    oneshot::channel()
}

/// Calls `tokio::sync::mpsc::Sender::try_send` and names its three outcomes.
///
/// Whether the queue has room, or is closed, is decided outside this
/// process's control, so nothing is claimed of the result.
#[verifier::external_body]
pub(crate) fn try_enqueue(tx: &mpsc::Sender<DownloadRequest>, request: DownloadRequest) -> (offer:
    Enqueue) {
    match tx.try_send(request) {
        Ok(()) => Enqueue::Accepted,
        Err(mpsc::error::TrySendError::Full(_)) => Enqueue::Full,
        Err(mpsc::error::TrySendError::Closed(_)) => Enqueue::Closed,
    }
}

/// Calls `tokio::sync::oneshot::Receiver::try_recv` and names its three
/// outcomes.
///
/// Whether a reply has arrived depends on the sender, so nothing is claimed
/// of which outcome it is. A look that finds no reply yet returns before it
/// touches the receiver, which is claimed: the receiver is then as it was,
/// and a later look may still find the reply.
#[verifier::external_body]
pub(crate) fn probe(rx: &mut oneshot::Receiver<Reply>) -> (found: Probe)
    ensures
        found is Empty ==> *final(rx) == *old(rx),
{
    match rx.try_recv() {
        Ok(reply) => Probe::Ready(reply),
        Err(oneshot::error::TryRecvError::Empty) => Probe::Empty,
        Err(oneshot::error::TryRecvError::Closed) => Probe::Closed,
    }
}

/// Calls `tokio::sync::oneshot::Sender::send`; `true` when the reply was
/// handed over, `false` when the receiver had been abandoned.
///
/// Which of the two happens depends on the receiver, so nothing is claimed of
/// the result.
#[verifier::external_body]
pub(crate) fn send_reply(channel: oneshot::Sender<Reply>, reply: Reply) -> (delivered: bool) {
    channel.send(reply).is_ok()
}

/// Borrows the bytes of a payload, through `Bytes`'s `AsRef<[u8]>`.
#[verifier::external_body]
pub(crate) fn payload(response: &DownloadResponse) -> (data: &[u8])
    ensures
        data@ == payload_bytes(response.bytes),
{
    response.bytes.as_ref()
}

/// Calls `Rc::clone`: another handle to the same asset, the asset itself is
/// not copied.
#[verifier::external_body]
pub(crate) fn share<A>(asset: &Rc<A>) -> (handle: Rc<A>)
    ensures
        handle == *asset,
{
    Rc::clone(asset)
}

} // verus!
