//! The registry itself: an offer-interest index shared by many connections,
//! and the two broadcast topics that fan invoice requests out and invoice
//! responses back.

use crate::bus::{
    no_requests, no_responses, publish_request, publish_response, request_log,
    request_topic_sender, response_log, response_topic_sender, topic_subscribe, CHANNEL_CAPACITY,
};
use crate::conn_index::{
    conn_map_add, conn_map_contains_key, conn_map_contents, conn_map_ensure_entry, conn_map_new,
    conn_map_remove, no_connections, offer_set_contains, offer_set_contents, offer_set_insert,
    offer_set_new, offer_set_remove,
};
use crate::offer_key::{hash_offer, offer_key_of};
use vstd::prelude::*;

verus! {

/// An opaque request token. The registry forwards it unmodified; its `id` is
/// what a requester later matches responses against.
#[derive(Clone, Copy, Debug, PartialEq, Eq, Structural)]
pub struct InvoiceHook {
    pub id: u64,
}

/// Why `request_invoice` failed outright.
#[derive(Clone, Copy, Debug, PartialEq, Eq, Structural)]
pub enum RequestInvoiceError {
    /// The offer has a subscriber, but nobody holds a request-topic receive
    /// handle, so the request could never have been served.
    NoListeners,
}

/// The keys a connection's entry holds, or the empty set for an unknown
/// connection.
pub open spec fn connection_offer_keys(subs: Map<u64, Set<u64>>, connection_id: u64) -> Set<u64> {
    if subs.dom().contains(connection_id) {
        subs[connection_id]
    } else {
        Set::<u64>::empty()
    }
}

/// The keys of a list of announced offers.
pub open spec fn offer_keys_of(offers: Seq<String>) -> Set<u64>
    decreases offers.len(),
{
    if offers.len() == 0 {
        Set::<u64>::empty()
    } else {
        offer_keys_of(offers.drop_last()).insert(offer_key_of(offers.last()@))
    }
}

/// The per-connection map after a connection announces a set of offer keys:
/// its entry exists and grows by those keys; no other entry moves.
pub open spec fn subscriptions_after_subscribe(
    subs: Map<u64, Set<u64>>,
    connection_id: u64,
    keys: Set<u64>,
) -> Map<u64, Set<u64>> {
    subs.insert(connection_id, connection_offer_keys(subs, connection_id).union(keys))
}

/// The all-offers index after a subscription: it grows by the announced keys.
pub open spec fn offers_after_subscribe(offers: Set<u64>, keys: Set<u64>) -> Set<u64> {
    offers.union(keys)
}

/// The per-connection map after a connection drops: its entry is gone.
pub open spec fn subscriptions_after_drop(
    subs: Map<u64, Set<u64>>,
    connection_id: u64,
) -> Map<u64, Set<u64>> {
    subs.remove(connection_id)
}

/// The all-offers index after a connection drops: every key the dropped
/// connection held leaves it, whether or not another connection still
/// subscribes to that key.
pub open spec fn offers_after_drop(
    offers: Set<u64>,
    subs: Map<u64, Set<u64>>,
    connection_id: u64,
) -> Set<u64> {
    offers.difference(connection_offer_keys(subs, connection_id))
}

/// Tracks which offers currently have a subscriber and what each connection
/// subscribed to, and carries invoice requests and responses between
/// otherwise unrelated callers over two broadcast topics.
pub struct OfferSubscriptions {
    all_offers: dashmap::DashSet<u64>,
    offer_subscriptions: dashmap::DashMap<u64, dashmap::DashSet<u64>>,
    invoice_request_tx: tokio::sync::broadcast::Sender<InvoiceHook>,
    invoice_response_tx: tokio::sync::broadcast::Sender<(u64, String)>,
}

impl OfferSubscriptions {
    /// The keys of every offer some live connection subscribes to.
    pub closed spec fn offers(&self) -> Set<u64> {
        offer_set_contents(self.all_offers)
    }

    /// Each known connection's set of subscribed offer keys.
    pub closed spec fn subscriptions(&self) -> Map<u64, Set<u64>> {
        conn_map_contents(self.offer_subscriptions)
    }

    /// Everything this registry ever published on the request topic.
    pub closed spec fn requests_published(&self) -> Seq<InvoiceHook> {
        request_log(self.invoice_request_tx)
    }

    /// Everything this registry ever published on the response topic.
    pub closed spec fn responses_published(&self) -> Seq<(u64, String)> {
        response_log(self.invoice_response_tx)
    }

    /// A fresh registry: no offers, no known connection, and two topics
    /// without receive handles on which nothing has been published.
    pub fn new() -> (registry: Self)
        ensures
            registry.offers() == Set::<u64>::empty(),
            registry.subscriptions() == no_connections(),
            registry.requests_published() == no_requests(),
            registry.responses_published() == no_responses(),
    {
        Self {
            all_offers: offer_set_new(),
            offer_subscriptions: conn_map_new(),
            invoice_request_tx: request_topic_sender(CHANNEL_CAPACITY),
            invoice_response_tx: response_topic_sender(CHANNEL_CAPACITY),
        }
    }

    /// A fresh receive handle on the request topic; it sees every hook
    /// published after this call. What it will yield has no contract: that
    /// depends on later publishes and on how every handle is drained, not
    /// on the handle's value, so no spec could soundly name it.
    pub fn subscribe_invoice_requests(&self) -> tokio::sync::broadcast::Receiver<InvoiceHook> {
        topic_subscribe(&self.invoice_request_tx)
    }

    /// A fresh receive handle on the response topic; it sees every pair
    /// published after this call, with the same caveat as for the request
    /// topic.
    pub fn subscribe_invoice_responses(&self) -> tokio::sync::broadcast::Receiver<(u64, String)> {
        topic_subscribe(&self.invoice_response_tx)
    }

    /// True exactly when the connection currently has an entry, even an
    /// empty one.
    pub fn connection_id_known(&self, connection_id: u64) -> (known: bool)
        ensures
            known == self.subscriptions().dom().contains(connection_id),
    {
        conn_map_contains_key(&self.offer_subscriptions, connection_id)
    }

    /// Records that a connection wants each offer in the list: the
    /// connection's entry is created if absent and grows by the offers'
    /// keys, and so does the all-offers index; every other connection's
    /// entry is untouched and nothing is published on either topic.
    /// Announcing a key twice has no further effect.
    pub fn offers_subscribed(&mut self, connection_id: u64, offers: &[String])
        ensures
            final(self).subscriptions() == subscriptions_after_subscribe(
                old(self).subscriptions(),
                connection_id,
                offer_keys_of(offers@),
            ),
            final(self).offers() == offers_after_subscribe(
                old(self).offers(),
                offer_keys_of(offers@),
            ),
            final(self).subscriptions().dom().contains(connection_id),
            final(self).requests_published() == old(self).requests_published(),
            final(self).responses_published() == old(self).responses_published(),
    {
        let ghost base = connection_offer_keys(old(self).subscriptions(), connection_id);
        conn_map_ensure_entry(&mut self.offer_subscriptions, connection_id);
        proof {
            assert(self.subscriptions() =~~= old(self).subscriptions().insert(
                connection_id,
                base.union(offer_keys_of(offers@.take(0))),
            ));
            assert(self.offers() =~= old(self).offers().union(offer_keys_of(offers@.take(0))));
        }
        let mut i: usize = 0;
        while i < offers.len()
            invariant
                i <= offers.len(),
                self.subscriptions() == old(self).subscriptions().insert(
                    connection_id,
                    base.union(offer_keys_of(offers@.take(i as int))),
                ),
                self.offers() == old(self).offers().union(offer_keys_of(offers@.take(i as int))),
                self.requests_published() == old(self).requests_published(),
                self.responses_published() == old(self).responses_published(),
            decreases offers.len() - i,
        {
            let key = hash_offer(offers[i].as_str());
            conn_map_add(&mut self.offer_subscriptions, connection_id, key);
            offer_set_insert(&mut self.all_offers, key);
            proof {
                lemma_offer_keys_take_step(offers@, i as int);
                assert(self.subscriptions() =~~= old(self).subscriptions().insert(
                    connection_id,
                    base.union(offer_keys_of(offers@.take(i as int + 1))),
                ));
                assert(self.offers() =~= old(self).offers().union(
                    offer_keys_of(offers@.take(i as int + 1)),
                ));
            }
            i = i + 1;
        }
        proof {
            assert(offers@.take(offers@.len() as int) == offers@) by {
                offers@.lemma_take_len();
            }
        }
    }

    /// Removes the connection's entry, then removes from the all-offers
    /// index every key that entry held, even keys another live connection
    /// still subscribes to. Dropping an unknown connection changes nothing,
    /// and nothing is published on either topic in any case.
    pub fn connection_dropped(&mut self, connection_id: u64)
        ensures
            final(self).subscriptions() == subscriptions_after_drop(
                old(self).subscriptions(),
                connection_id,
            ),
            final(self).offers() == offers_after_drop(
                old(self).offers(),
                old(self).subscriptions(),
                connection_id,
            ),
            !final(self).subscriptions().dom().contains(connection_id),
            final(self).requests_published() == old(self).requests_published(),
            final(self).responses_published() == old(self).responses_published(),
    {
        match conn_map_remove(&mut self.offer_subscriptions, connection_id) {
            Some(removed_keys) => {
                let mut i: usize = 0;
                while i < removed_keys.len()
                    invariant
                        i <= removed_keys.len(),
                        self.subscriptions() == old(self).subscriptions().remove(connection_id),
                        self.offers() == old(self).offers().difference(
                            removed_keys@.take(i as int).to_set(),
                        ),
                        self.requests_published() == old(self).requests_published(),
                        self.responses_published() == old(self).responses_published(),
                    decreases removed_keys.len() - i,
                {
                    offer_set_remove(&mut self.all_offers, removed_keys[i]);
                    proof {
                        removed_keys@.lemma_take_succ_push(i as int);
                        Seq::<u64>::lemma_push_to_set_commute(
                            removed_keys@.take(i as int),
                            removed_keys@[i as int],
                        );
                        assert(self.offers() =~= old(self).offers().difference(
                            removed_keys@.take(i as int + 1).to_set(),
                        ));
                    }
                    i = i + 1;
                }
                proof {
                    assert(removed_keys@.take(removed_keys@.len() as int) == removed_keys@) by {
                        removed_keys@.lemma_take_len();
                    }
                }
            },
            None => {
                proof {
                    assert(self.offers() =~= old(self).offers().difference(Set::<u64>::empty()));
                }
            },
        }
    }

    /// Asks some current subscriber of `offer` to produce an invoice for
    /// it, by publishing `hook` — unmodified — on the request topic.
    /// Returns `Ok(false)`, with nothing published, exactly when no
    /// connection subscribes to the offer's key; otherwise `Ok(true)` once
    /// the hook is appended to the request topic, or `Err(NoListeners)`,
    /// again with nothing published, when no request-topic receive handle
    /// exists at that moment, so the request could never have been served.
    /// The index and the response topic are untouched in every case.
    pub fn request_invoice(&mut self, offer: &str, hook: InvoiceHook) -> (outcome: Result<
        bool,
        RequestInvoiceError,
    >)
        ensures
            final(self).offers() == old(self).offers(),
            final(self).subscriptions() == old(self).subscriptions(),
            final(self).responses_published() == old(self).responses_published(),
            (outcome == Ok::<bool, RequestInvoiceError>(false)) <==> !old(self).offers().contains(
                offer_key_of(offer@),
            ),
            old(self).offers().contains(offer_key_of(offer@)) ==> (outcome == Ok::<
                bool,
                RequestInvoiceError,
            >(true) || outcome == Err::<bool, RequestInvoiceError>(
                RequestInvoiceError::NoListeners,
            )),
            outcome == Ok::<bool, RequestInvoiceError>(true) ==> final(self).requests_published()
                == old(self).requests_published().push(hook),
            outcome != Ok::<bool, RequestInvoiceError>(true) ==> final(self).requests_published()
                == old(self).requests_published(),
    {
        let key = hash_offer(offer);
        if !offer_set_contains(&self.all_offers, key) {
            return Ok(false);
        }
        answer_for_publish(publish_request(&mut self.invoice_request_tx, hook))
    }

    /// Publishes `(hook_id, invoice)`, verbatim, on the response topic:
    /// afterwards the response history grew by exactly that pair, or — when
    /// no live response handle existed at that moment — is unchanged, a
    /// failure discarded on purpose: a requester that already gave up
    /// waiting is no error here. The index and the request topic are
    /// untouched either way.
    pub fn received_invoice_response(&mut self, hook_id: u64, invoice: String)
        ensures
            final(self).offers() == old(self).offers(),
            final(self).subscriptions() == old(self).subscriptions(),
            final(self).requests_published() == old(self).requests_published(),
            final(self).responses_published() == old(self).responses_published().push(
                (hook_id, invoice),
            ) || final(self).responses_published() == old(self).responses_published(),
    {
        let _ = publish_response(&mut self.invoice_response_tx, (hook_id, invoice));
    }
}

/// The answer `request_invoice` gives for a subscribed offer, determined by
/// the request topic's verdict on the publish: handed to at least one
/// listener means success, handed back for want of listeners means the
/// no-listeners error.
pub fn answer_for_publish(published: Result<usize, InvoiceHook>) -> (outcome: Result<
    bool,
    RequestInvoiceError,
>)
    ensures
        published is Ok ==> outcome == Ok::<bool, RequestInvoiceError>(true),
        published is Err ==> outcome == Err::<bool, RequestInvoiceError>(
            RequestInvoiceError::NoListeners,
        ),
{
    match published {
        Ok(_) => Ok(true),
        Err(_) => Err(RequestInvoiceError::NoListeners),
    }
}

/// One step of `offer_keys_of` along a prefix of the announced list.
proof fn lemma_offer_keys_take_step(offers: Seq<String>, i: int)
    requires
        0 <= i < offers.len(),
    ensures
        offer_keys_of(offers.take(i + 1)) == offer_keys_of(offers.take(i)).insert(
            offer_key_of(offers[i]@),
        ),
{
    assert(offers.take(i + 1).drop_last() =~= offers.take(i));
    assert(offers.take(i + 1).last() == offers[i]);
}

/// A key announced anywhere in the list is among the list's keys.
pub proof fn lemma_offer_key_in_keys(offers: Seq<String>, i: int)
    requires
        0 <= i < offers.len(),
    ensures
        offer_keys_of(offers).contains(offer_key_of(offers[i]@)),
    decreases offers.len(),
{
    if i < offers.len() - 1 {
        lemma_offer_key_in_keys(offers.drop_last(), i);
    }
}

/// Law: the keys of an announced list are exactly the keys of its members.
pub proof fn lemma_offer_keys_of_membership(offers: Seq<String>, key: u64)
    ensures
        offer_keys_of(offers).contains(key) <==> (exists|i: int|
            0 <= i < offers.len() && key == offer_key_of(offers[i]@)),
    decreases offers.len(),
{
    if offers.len() > 0 {
        lemma_offer_keys_of_membership(offers.drop_last(), key);
        if offer_keys_of(offers).contains(key) {
            if key == offer_key_of(offers.last()@) {
                assert(0 <= offers.len() - 1 < offers.len() && key == offer_key_of(
                    offers[offers.len() - 1]@,
                ));
            } else {
                let j = choose|j: int|
                    0 <= j < offers.drop_last().len() && key == offer_key_of(
                        offers.drop_last()[j]@,
                    );
                assert(offers.drop_last()[j] == offers[j]);
                assert(0 <= j < offers.len() && key == offer_key_of(offers[j]@));
            }
        }
        if exists|i: int| 0 <= i < offers.len() && key == offer_key_of(offers[i]@) {
            let i = choose|i: int| 0 <= i < offers.len() && key == offer_key_of(offers[i]@);
            if i < offers.len() - 1 {
                assert(offers.drop_last()[i] == offers[i]);
                assert(0 <= i < offers.drop_last().len() && key == offer_key_of(
                    offers.drop_last()[i]@,
                ));
            }
        }
    }
}

/// Law: subscribing is idempotent. Announcing the same offers for the same
/// connection a second time changes neither the all-offers index nor the
/// connection's own subscription set.
pub proof fn lemma_subscribe_idempotent(
    subs: Map<u64, Set<u64>>,
    offers: Set<u64>,
    connection_id: u64,
    keys: Set<u64>,
)
    ensures
        subscriptions_after_subscribe(
            subscriptions_after_subscribe(subs, connection_id, keys),
            connection_id,
            keys,
        ) == subscriptions_after_subscribe(subs, connection_id, keys),
        offers_after_subscribe(offers_after_subscribe(offers, keys), keys)
            == offers_after_subscribe(offers, keys),
{
    let once = subscriptions_after_subscribe(subs, connection_id, keys);
    assert(connection_offer_keys(once, connection_id).union(keys) =~= connection_offer_keys(
        subs,
        connection_id,
    ).union(keys));
    assert(subscriptions_after_subscribe(once, connection_id, keys) =~~= once);
    assert(offers_after_subscribe(offers_after_subscribe(offers, keys), keys)
        =~= offers_after_subscribe(offers, keys));
}

/// Law: after a connection announces a list of offers, the key of each offer
/// in the list is in the all-offers index, so a request for that offer is
/// never answered with `Ok(false)`.
pub proof fn lemma_subscribed_offer_is_indexed(offers: Set<u64>, announced: Seq<String>, i: int)
    requires
        0 <= i < announced.len(),
    ensures
        offers_after_subscribe(offers, offer_keys_of(announced)).contains(
            offer_key_of(announced[i]@),
        ),
{
    lemma_offer_key_in_keys(announced, i);
}

/// Does some known connection subscribe to `key`?
pub open spec fn key_subscribed_somewhere(subs: Map<u64, Set<u64>>, key: u64) -> bool {
    exists|c: u64| subs.dom().contains(c) && subs[c].contains(key)
}

/// Every key the all-offers index holds is subscribed by some known
/// connection.
pub open spec fn offers_covered(offers: Set<u64>, subs: Map<u64, Set<u64>>) -> bool {
    forall|key: u64| offers.contains(key) ==> key_subscribed_somewhere(subs, key)
}

/// Law: a subscription preserves coverage of the all-offers index. A fresh
/// registry is covered trivially, so by this law and its companion below the
/// index never advertises a key that no known connection subscribes to.
pub proof fn lemma_subscribe_preserves_coverage(
    subs: Map<u64, Set<u64>>,
    offers: Set<u64>,
    connection_id: u64,
    keys: Set<u64>,
)
    requires
        offers_covered(offers, subs),
    ensures
        offers_covered(
            offers_after_subscribe(offers, keys),
            subscriptions_after_subscribe(subs, connection_id, keys),
        ),
{
    let subs2 = subscriptions_after_subscribe(subs, connection_id, keys);
    assert forall|key: u64| offers_after_subscribe(offers, keys).contains(key)
        implies key_subscribed_somewhere(subs2, key) by {
        if keys.contains(key) {
            assert(subs2.dom().contains(connection_id) && subs2[connection_id].contains(key));
        } else {
            let c = choose|c: u64| subs.dom().contains(c) && subs[c].contains(key);
            if c == connection_id {
                assert(subs2.dom().contains(connection_id) && subs2[connection_id].contains(key));
            } else {
                assert(subs2.dom().contains(c) && subs2[c].contains(key));
            }
        }
    }
}

/// Law: dropping a connection preserves coverage of the all-offers index:
/// a key that survives the drop was never held only by the dropped
/// connection.
pub proof fn lemma_drop_preserves_coverage(
    subs: Map<u64, Set<u64>>,
    offers: Set<u64>,
    connection_id: u64,
)
    requires
        offers_covered(offers, subs),
    ensures
        offers_covered(
            offers_after_drop(offers, subs, connection_id),
            subscriptions_after_drop(subs, connection_id),
        ),
{
    let subs2 = subscriptions_after_drop(subs, connection_id);
    assert forall|key: u64| offers_after_drop(offers, subs, connection_id).contains(key)
        implies key_subscribed_somewhere(subs2, key) by {
        let c = choose|c: u64| subs.dom().contains(c) && subs[c].contains(key);
        assert(c != connection_id);
        assert(subs2.dom().contains(c) && subs2[c].contains(key));
    }
}

/// Law: dropping a connection removes its keys from the all-offers index
/// even when another live connection still subscribes to them, while that
/// other connection's own entry keeps the key. The index holds no reference
/// counts; only a fresh announcement brings such a key back.
pub proof fn lemma_drop_removes_shared_offer(
    subs: Map<u64, Set<u64>>,
    offers: Set<u64>,
    dropped_id: u64,
    other_id: u64,
    key: u64,
)
    requires
        dropped_id != other_id,
        subs.dom().contains(dropped_id) && subs[dropped_id].contains(key),
        subs.dom().contains(other_id) && subs[other_id].contains(key),
    ensures
        !offers_after_drop(offers, subs, dropped_id).contains(key),
        subscriptions_after_drop(subs, dropped_id).dom().contains(other_id),
        subscriptions_after_drop(subs, dropped_id)[other_id].contains(key),
{
}

} // verus!
