//! The broadcast topics that carry invoice requests out and invoice
//! responses back, behind contracts on tokio's broadcast channel. Each
//! topic's published history is named, so the registry's contracts can say
//! exactly what is published and when nothing is.

use crate::registry::InvoiceHook;
use vstd::prelude::*;

verus! {

#[verifier::external_type_specification]
#[verifier::external_body]
#[verifier::reject_recursive_types(T)]
pub struct ExSender<T>(tokio::sync::broadcast::Sender<T>);

#[verifier::external_type_specification]
#[verifier::external_body]
#[verifier::reject_recursive_types(T)]
pub struct ExReceiver<T>(tokio::sync::broadcast::Receiver<T>);

/// How many events a slow receive handle may leave buffered before the
/// oldest are dropped to make room for new ones.
pub const CHANNEL_CAPACITY: usize = 265;

/// Everything ever published on the request topic, oldest first.
pub uninterp spec fn request_log(tx: tokio::sync::broadcast::Sender<InvoiceHook>) -> Seq<
    InvoiceHook,
>;

/// Everything ever published on the response topic, oldest first.
pub uninterp spec fn response_log(tx: tokio::sync::broadcast::Sender<(u64, String)>) -> Seq<
    (u64, String),
>;

/// The empty request history: nothing published yet.
pub open spec fn no_requests() -> Seq<InvoiceHook> {
    Seq::<InvoiceHook>::empty()
}

/// The empty response history: nothing published yet.
pub open spec fn no_responses() -> Seq<(u64, String)> {
    Seq::<(u64, String)>::empty()
}

/// Relies on `tokio::sync::broadcast::channel`, which panics only on a
/// capacity of zero or above `usize::MAX / 2`: the fresh channel has
/// published nothing. Its receiver half is dropped at once, so the topic
/// starts with no receive handle.
#[verifier::external_body]
pub(crate) fn request_topic_sender(
    capacity: usize,
) -> (tx: tokio::sync::broadcast::Sender<InvoiceHook>)
    requires
        0 < capacity <= usize::MAX / 2,
    ensures
        request_log(tx) == no_requests(),
{
    tokio::sync::broadcast::channel(capacity).0
}

/// Relies on `tokio::sync::broadcast::channel`, as above, for the response
/// topic.
#[verifier::external_body]
pub(crate) fn response_topic_sender(
    capacity: usize,
) -> (tx: tokio::sync::broadcast::Sender<(u64, String)>)
    requires
        0 < capacity <= usize::MAX / 2,
    ensures
        response_log(tx) == no_responses(),
{
    tokio::sync::broadcast::channel(capacity).0
}

/// Relies on `Sender::subscribe`: a fresh, independent receive handle that
/// observes only what is published after this call. No spec names what the
/// handle will yield: that is decided by later publishes and by how every
/// handle is drained, not by the handle's value, so any such name would be
/// unsound.
#[verifier::external_body]
pub(crate) fn topic_subscribe<T>(
    tx: &tokio::sync::broadcast::Sender<T>,
) -> (rx: tokio::sync::broadcast::Receiver<T>) {
    tx.subscribe()
}

/// Relies on `Sender::send`: with no live receive handle the hook comes
/// back unchanged in the error and the topic's history is as it was;
/// otherwise exactly the hook is appended to the history, placed in every
/// current handle's buffer, and the number of such handles, at least one,
/// is returned. The registry holds its senders exclusively, so every
/// publish on the topic goes through here.
#[verifier::external_body]
pub(crate) fn publish_request(
    tx: &mut tokio::sync::broadcast::Sender<InvoiceHook>,
    hook: InvoiceHook,
) -> (outcome: Result<usize, InvoiceHook>)
    ensures
        (match outcome {
            Ok(receiver_count) => receiver_count >= 1
                && request_log(*final(tx)) == request_log(*old(tx)).push(hook),
            Err(returned) => returned == hook && request_log(*final(tx)) == request_log(*old(tx))
        }),
{
    tx.send(hook).map_err(|rejected| rejected.0)
}

/// Relies on `Sender::send`, as above, for the response topic.
#[verifier::external_body]
pub(crate) fn publish_response(
    tx: &mut tokio::sync::broadcast::Sender<(u64, String)>,
    response: (u64, String),
) -> (outcome: Result<usize, (u64, String)>)
    ensures
        (match outcome {
            Ok(receiver_count) => receiver_count >= 1
                && response_log(*final(tx)) == response_log(*old(tx)).push(response),
            Err(returned) => returned == response
                && response_log(*final(tx)) == response_log(*old(tx))
        }),
{
    tx.send(response).map_err(|rejected| rejected.0)
}

} // verus!
