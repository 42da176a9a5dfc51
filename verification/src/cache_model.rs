//! The resource cache as mathematics: what it holds, how a lookup, a settled
//! reply and a poll change it, and the laws that follow.

use crate::channels::Enqueue;
use std::rc::Rc;
use vstd::prelude::*;

verus! {

/// The pipeline has shut down: no fetch can be started any more.
#[derive(Clone, Copy, PartialEq, Eq, Debug, Structural)]
pub struct PipelineClosed;

/// How the look at one request's reply channel came out, once a payload that
/// arrived has been through the decoder.
pub enum Settled<A> {
    /// No reply yet.
    Waiting,
    /// The fetch failed, or the sender went away without replying.
    Failed,
    /// A payload arrived and the decoder refused it.
    Undecodable,
    /// A payload arrived and the decoder made this asset of it.
    Decoded(Rc<A>),
}

/// What the cache holds.
#[verifier::ext_equal]
pub struct CacheState<A> {
    /// The finished assets, each under its key.
    pub cache: Map<Seq<char>, Rc<A>>,
    /// The keys with a fetch under way.
    pub in_flight: Set<Seq<char>>,
    /// The keys whose payload the decoder refused. They stay without an asset
    /// and are not fetched again.
    pub undecodable: Set<Seq<char>>,
    /// The rendered texts with their measured width and height.
    pub text: Map<Seq<char>, (Rc<A>, (u32, u32))>,
}

impl<A> CacheState<A> {
    /// Nothing is held and nothing is under way.
    pub open spec fn empty() -> Self {
        CacheState {
            cache: Map::empty(),
            in_flight: Set::empty(),
            undecodable: Set::empty(),
            text: Map::empty(),
        }
    }

    /// A key is in at most one of: the finished assets, the fetches under
    /// way, the refused payloads.
    pub open spec fn wf(self) -> bool {
        &&& self.cache.dom().disjoint(self.in_flight)
        &&& self.cache.dom().disjoint(self.undecodable)
        &&& self.in_flight.disjoint(self.undecodable)
    }

    /// The cache knows nothing of `key`: a lookup will ask for a fetch.
    pub open spec fn unknown(self, key: Seq<char>) -> bool {
        &&& !self.cache.contains_key(key)
        &&& !self.in_flight.contains(key)
        &&& !self.undecodable.contains(key)
    }

    /// The finished asset of `key`, if there is one.
    pub open spec fn held(self, key: Seq<char>) -> Option<Rc<A>> {
        if self.cache.contains_key(key) {
            Some(self.cache[key])
        } else {
            None
        }
    }

    /// `later` is what lookups of `urls` and asking for `texts` can make of
    /// this state: the finished assets and the refused keys are as before,
    /// the keys that are newly in flight were unknown and are among `urls`,
    /// and the texts that are newly held are among `texts`.
    pub open spec fn leads_to(
        self,
        later: Self,
        urls: Set<Seq<char>>,
        texts: Set<Seq<char>>,
    ) -> bool {
        &&& later.cache == self.cache
        &&& later.undecodable == self.undecodable
        &&& forall|key: Seq<char>| #[trigger]
            self.in_flight.contains(key) ==> later.in_flight.contains(key)
        &&& forall|key: Seq<char>| #[trigger]
            later.in_flight.contains(key) && !self.in_flight.contains(key) ==> urls.contains(key)
                && self.unknown(key)
        &&& forall|key: Seq<char>| #[trigger]
            self.text.contains_key(key) ==> later.text.contains_key(key) && later.text[key]
                == self.text[key]
        &&& forall|key: Seq<char>| #[trigger]
            later.text.contains_key(key) && !self.text.contains_key(key) ==> texts.contains(key)
    }

    /// What a lookup of `key` returns. `offer` is how the queue answered the
    /// request; it is asked only where `key` is unknown.
    pub open spec fn lookup_result(self, key: Seq<char>, offer: Enqueue) -> Result<
        Option<Rc<A>>,
        PipelineClosed,
    > {
        if self.cache.contains_key(key) {
            Ok(Some(self.cache[key]))
        } else if self.unknown(key) && offer == Enqueue::Closed {
            Err(PipelineClosed)
        } else {
            Ok(None)
        }
    }

    /// The state after a lookup of `key`: the key is in flight from now on
    /// exactly when it was unknown and the queue accepted the request.
    pub open spec fn after_lookup(self, key: Seq<char>, offer: Enqueue) -> Self {
        if self.unknown(key) && offer == Enqueue::Accepted {
            CacheState { in_flight: self.in_flight.insert(key), ..self }
        } else {
            self
        }
    }

    /// The state after the reply of the request for `key` came out as
    /// `settled`. A key that is not in flight has no reply to settle.
    pub open spec fn after_settle(self, key: Seq<char>, settled: Settled<A>) -> Self {
        if !self.in_flight.contains(key) {
            self
        } else {
            match settled {
                Settled::Waiting => self,
                Settled::Failed => CacheState { in_flight: self.in_flight.remove(key), ..self },
                Settled::Undecodable => CacheState {
                    in_flight: self.in_flight.remove(key),
                    undecodable: self.undecodable.insert(key),
                    ..self
                },
                Settled::Decoded(asset) => CacheState {
                    cache: self.cache.insert(key, asset),
                    in_flight: self.in_flight.remove(key),
                    ..self
                },
            }
        }
    }

    /// The state after the replies in `steps` were settled one after the
    /// other, each under its key.
    pub open spec fn after_settles(self, steps: Seq<(Seq<char>, Settled<A>)>) -> Self
        decreases steps.len(),
    {
        if steps.len() == 0 {
            self
        } else {
            self.after_settles(steps.drop_last()).after_settle(steps.last().0, steps.last().1)
        }
    }

    /// The replies of `steps` by key; of two under the same key the later.
    pub open spec fn replies_of(steps: Seq<(Seq<char>, Settled<A>)>) -> Map<
        Seq<char>,
        Settled<A>,
    >
        decreases steps.len(),
    {
        if steps.len() == 0 {
            Map::empty()
        } else {
            Self::replies_of(steps.drop_last()).insert(steps.last().0, steps.last().1)
        }
    }

    /// No two of `steps` are under the same key.
    pub open spec fn one_step_per_key(steps: Seq<(Seq<char>, Settled<A>)>) -> bool {
        forall|i: int, j: int|
            0 <= i < j < steps.len() ==> (#[trigger] steps[i]).0 != (#[trigger] steps[j]).0
    }

    /// How the reply of `key` came out according to `replies`; a key of which
    /// `replies` says nothing is still waiting.
    pub open spec fn reply_of(replies: Map<Seq<char>, Settled<A>>, key: Seq<char>) -> Settled<A> {
        if replies.contains_key(key) {
            replies[key]
        } else {
            Settled::Waiting
        }
    }

    /// The state after a poll in which the replies came out as `replies`.
    /// Every key in flight is looked at once, so the order in which the
    /// replies are taken plays no part.
    pub open spec fn after_poll(self, replies: Map<Seq<char>, Settled<A>>) -> Self {
        CacheState {
            cache: Map::new(
                |key: Seq<char>|
                    self.cache.contains_key(key) || (self.in_flight.contains(key)
                        && Self::reply_of(replies, key) is Decoded),
                |key: Seq<char>|
                    if self.in_flight.contains(key) && Self::reply_of(replies, key) is Decoded {
                        Self::reply_of(replies, key)->Decoded_0
                    } else {
                        self.cache[key]
                    },
            ),
            in_flight: Set::new(
                |key: Seq<char>|
                    self.in_flight.contains(key) && Self::reply_of(replies, key) is Waiting,
            ),
            undecodable: Set::new(
                |key: Seq<char>|
                    self.undecodable.contains(key) || (self.in_flight.contains(key)
                        && Self::reply_of(replies, key) is Undecodable),
            ),
            text: self.text,
        }
    }

    /// What asking for `text` returns, where `rendered` is what the renderer
    /// would make of it: the renderer is asked only for a text not yet held.
    pub open spec fn text_result(self, text: Seq<char>, rendered: (Rc<A>, (u32, u32))) -> (
        Rc<A>,
        (u32, u32),
    ) {
        if self.text.contains_key(text) {
            self.text[text]
        } else {
            rendered
        }
    }

    /// The state after asking for `text`.
    pub open spec fn after_text(self, text: Seq<char>, rendered: (Rc<A>, (u32, u32))) -> Self {
        if self.text.contains_key(text) {
            self
        } else {
            CacheState { text: self.text.insert(text, rendered), ..self }
        }
    }
}

/// A lookup keeps the three sets apart.
pub proof fn lemma_lookup_preserves_wf<A>(s: CacheState<A>, key: Seq<char>, offer: Enqueue)
    requires
        s.wf(),
    ensures
        s.after_lookup(key, offer).wf(),
{
}

/// Settling a reply keeps the three sets apart.
pub proof fn lemma_settle_preserves_wf<A>(s: CacheState<A>, key: Seq<char>, settled: Settled<A>)
    requires
        s.wf(),
    ensures
        s.after_settle(key, settled).wf(),
{
}

/// A poll keeps the three sets apart.
pub proof fn lemma_poll_preserves_wf<A>(s: CacheState<A>, replies: Map<Seq<char>, Settled<A>>)
    requires
        s.wf(),
    ensures
        s.after_poll(replies).wf(),
{
}

/// A poll in which only the reply of `key` is looked at is that reply
/// settled.
pub proof fn lemma_poll_of_one_reply<A>(s: CacheState<A>, key: Seq<char>, settled: Settled<A>)
    requires
        s.wf(),
    ensures
        s.after_poll(map![key => settled]) == s.after_settle(key, settled),
{
}

/// Settling one more reply after a poll is the poll with that reply added,
/// whatever the order: a poll may be carried out one reply at a time.
pub proof fn lemma_poll_step<A>(
    s: CacheState<A>,
    replies: Map<Seq<char>, Settled<A>>,
    key: Seq<char>,
    settled: Settled<A>,
)
    requires
        s.wf(),
        !replies.contains_key(key),
    ensures
        s.after_poll(replies).after_settle(key, settled) == s.after_poll(
            replies.insert(key, settled),
        ),
{
}

/// Replies that are settled one after the other, no two under the same key,
/// come to the poll in which they are found together: the order in which
/// the channels are looked at plays no part.
pub proof fn lemma_settles_are_a_poll<A>(s: CacheState<A>, steps: Seq<(Seq<char>, Settled<A>)>)
    requires
        s.wf(),
        CacheState::one_step_per_key(steps),
    ensures
        s.after_settles(steps) == s.after_poll(CacheState::replies_of(steps)),
        forall|key: Seq<char>|
            CacheState::replies_of(steps).contains_key(key) <==> exists|i: int|
                0 <= i < steps.len() && (#[trigger] steps[i]).0 == key,
        forall|i: int|
            0 <= i < steps.len() ==> CacheState::replies_of(steps)[(#[trigger] steps[i]).0]
                == steps[i].1,
    decreases steps.len(),
{
    if steps.len() == 0 {
        assert(s.after_poll(CacheState::replies_of(steps)) =~= s);
    } else {
        let earlier = steps.drop_last();
        let last = steps.last();
        lemma_settles_are_a_poll(s, earlier);
        assert(!CacheState::replies_of(earlier).contains_key(last.0)) by {
            if CacheState::replies_of(earlier).contains_key(last.0) {
                let i = choose|i: int|
                    0 <= i < earlier.len() && (#[trigger] earlier[i]).0 == last.0;
                assert(steps[i].0 == steps[steps.len() - 1].0);
            }
        }
        lemma_poll_step(s, CacheState::replies_of(earlier), last.0, last.1);
        assert forall|key: Seq<char>|
            CacheState::replies_of(steps).contains_key(key) implies exists|i: int|
            0 <= i < steps.len() && (#[trigger] steps[i]).0 == key by {
            if key == last.0 {
                assert(steps[steps.len() - 1].0 == key);
            } else {
                let i = choose|i: int| 0 <= i < earlier.len() && (#[trigger] earlier[i]).0 == key;
                assert(steps[i].0 == key);
            }
        }
        assert forall|i: int| 0 <= i < steps.len() implies CacheState::replies_of(steps)[(
        #[trigger] steps[i]).0] == steps[i].1 by {
            if i < steps.len() - 1 {
                assert(earlier[i] == steps[i]);
                assert(steps[i].0 != steps[steps.len() - 1].0);
            }
        }
        assert forall|key: Seq<char>|
            (exists|i: int| 0 <= i < steps.len() && (#[trigger] steps[i]).0 == key)
                implies CacheState::replies_of(steps).contains_key(key) by {
            let i = choose|i: int| 0 <= i < steps.len() && (#[trigger] steps[i]).0 == key;
            if i < steps.len() - 1 {
                assert(earlier[i].0 == key);
            }
        }
    }
}

/// A lookup returns the finished asset if there is one, and adds none: assets
/// come into the cache by a poll only, so a reply that arrives between two
/// polls shows from the poll after it on.
pub proof fn lemma_lookup_adds_no_asset<A>(s: CacheState<A>, key: Seq<char>, offer: Enqueue)
    ensures
        s.after_lookup(key, offer).cache == s.cache,
        s.lookup_result(key, offer) matches Ok(found) ==> found == s.held(key),
        s.lookup_result(key, offer) is Err ==> s.unknown(key),
        s.leads_to(s.after_lookup(key, offer), set![key], Set::empty()),
{
}

/// A poll takes no asset away and replaces none: what a lookup has returned
/// once it returns ever after.
pub proof fn lemma_poll_keeps_assets<A>(
    s: CacheState<A>,
    replies: Map<Seq<char>, Settled<A>>,
    key: Seq<char>,
)
    requires
        s.wf(),
        s.cache.contains_key(key),
    ensures
        s.after_poll(replies).held(key) == s.held(key),
{
}

/// The first lookup of a key that the cache knows nothing of returns no asset
/// and puts the key in flight, or leaves the state as it is where the queue
/// did not take the request.
pub proof fn lemma_first_lookup<A>(s: CacheState<A>, key: Seq<char>, offer: Enqueue)
    requires
        s.unknown(key),
    ensures
        !(s.lookup_result(key, offer) matches Ok(Some(_))),
        offer == Enqueue::Accepted ==> s.after_lookup(key, offer) == (CacheState {
            in_flight: s.in_flight.insert(key),
            ..s
        }),
        offer != Enqueue::Accepted ==> s.after_lookup(key, offer) == s,
        s.after_lookup(key, offer).in_flight.contains(key) <==> offer == Enqueue::Accepted,
{
}

/// A lookup of a key in flight changes nothing and returns no asset, however
/// often it is repeated and whatever the queue would have answered.
pub proof fn lemma_lookup_in_flight<A>(s: CacheState<A>, key: Seq<char>, offer: Enqueue)
    requires
        s.wf(),
        s.in_flight.contains(key),
    ensures
        s.after_lookup(key, offer) == s,
        s.lookup_result(key, offer) == Ok::<Option<Rc<A>>, PipelineClosed>(None),
{
}

/// After a poll no key whose reply has arrived is in flight, and a key
/// whose reply has not arrived is in flight exactly if it was before.
pub proof fn lemma_poll_clears_resolved<A>(
    s: CacheState<A>,
    replies: Map<Seq<char>, Settled<A>>,
    key: Seq<char>,
)
    ensures
        !(CacheState::reply_of(replies, key) is Waiting) ==> !s.after_poll(
            replies,
        ).in_flight.contains(key),
        CacheState::reply_of(replies, key) is Waiting ==> (s.after_poll(
            replies,
        ).in_flight.contains(key) <==> s.in_flight.contains(key)),
{
}

/// Round trip: after a poll in which the reply of a key in flight came out
/// decoded, every lookup of the key returns that asset and leaves the state
/// as it is, so nothing is fetched or decoded again.
pub proof fn lemma_round_trip<A>(
    s: CacheState<A>,
    replies: Map<Seq<char>, Settled<A>>,
    key: Seq<char>,
    asset: Rc<A>,
    offer: Enqueue,
)
    requires
        s.wf(),
        s.in_flight.contains(key),
        CacheState::reply_of(replies, key) == Settled::Decoded(asset),
    ensures
        ({
            let t = s.after_poll(replies);
            &&& t.lookup_result(key, offer) == Ok::<Option<Rc<A>>, PipelineClosed>(Some(asset))
            &&& t.after_lookup(key, offer) == t
        }),
{
}

/// Retry on demand: after a poll in which the fetch of a key in flight came
/// out failed, the cache knows nothing of the key. The poll itself asks for
/// nothing; the next lookup returns no asset and, where the queue takes the
/// request, puts the key in flight again.
pub proof fn lemma_failed_fetch_retries_on_demand<A>(
    s: CacheState<A>,
    replies: Map<Seq<char>, Settled<A>>,
    key: Seq<char>,
    offer: Enqueue,
)
    requires
        s.wf(),
        s.in_flight.contains(key),
        CacheState::reply_of(replies, key) is Failed,
    ensures
        ({
            let t = s.after_poll(replies);
            &&& t.unknown(key)
            &&& !(t.lookup_result(key, offer) matches Ok(Some(_)))
            &&& t.after_lookup(key, Enqueue::Accepted).in_flight.contains(key)
        }),
{
}

/// After a poll in which the decoder refused the payload of a key in flight,
/// lookups of the key return no asset and start no fetch.
pub proof fn lemma_refused_payload_is_final<A>(
    s: CacheState<A>,
    replies: Map<Seq<char>, Settled<A>>,
    key: Seq<char>,
    offer: Enqueue,
)
    requires
        s.wf(),
        s.in_flight.contains(key),
        CacheState::reply_of(replies, key) is Undecodable,
    ensures
        ({
            let t = s.after_poll(replies);
            &&& t.lookup_result(key, offer) == Ok::<Option<Rc<A>>, PipelineClosed>(None)
            &&& t.after_lookup(key, offer) == t
        }),
{
}

/// Asking for a text twice returns the same asset and size both times,
/// whatever the renderer would make of it the second time, and the second
/// call changes nothing.
pub proof fn lemma_text_is_rendered_once<A>(
    s: CacheState<A>,
    text: Seq<char>,
    first: (Rc<A>, (u32, u32)),
    second: (Rc<A>, (u32, u32)),
)
    ensures
        s.after_text(text, first).text_result(text, second) == s.text_result(text, first),
        s.after_text(text, first).after_text(text, second) == s.after_text(text, first),
{
}

/// Asking for one text leaves what is held for every other text as it is.
pub proof fn lemma_texts_do_not_collide<A>(
    s: CacheState<A>,
    text: Seq<char>,
    other: Seq<char>,
    rendered: (Rc<A>, (u32, u32)),
)
    requires
        text != other,
    ensures
        s.after_text(text, rendered).text.contains_key(other) == s.text.contains_key(other),
        s.text.contains_key(other) ==> s.after_text(text, rendered).text[other] == s.text[other],
        forall|again: (Rc<A>, (u32, u32))|
            s.after_text(text, rendered).text_result(other, again) == s.text_result(other, again),
{
}

} // verus!
