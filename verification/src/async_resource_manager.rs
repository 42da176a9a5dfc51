//! The cache of drawable assets, filled by a download pipeline in the
//! background and never waiting for it.

use crate::cache_model::{lemma_settles_are_a_poll, CacheState, PipelineClosed, Settled};
use crate::channels::{payload, payload_bytes, reply_channel, share, try_enqueue, Enqueue, Probe};
use crate::in_flight::InFlight;
use bytes::Bytes;
use std::rc::Rc;
use tokio::sync::mpsc;
use tokio::sync::oneshot;
use vstd::hash_map::StringHashMap;
use vstd::hash_set::StringHashSet;
use vstd::prelude::*;

verus! {

/// A downloaded payload.
#[derive(Debug)]
pub struct DownloadResponse {
    pub bytes: Bytes,
}

impl View for DownloadResponse {
    type V = Seq<u8>;

    open spec fn view(&self) -> Seq<u8> {
        payload_bytes(self.bytes)
    }
}

/// What a reply channel carries: the payload, or nothing when the fetch failed.
pub type Reply = Option<DownloadResponse>;

/// Asks the pipeline to fetch `url` and to answer on `response_channel`.
///
/// The channel is single-use: sending consumes it, so at most one reply is
/// ever sent for a request.
pub struct DownloadRequest {
    pub url: String,
    pub response_channel: oneshot::Sender<Reply>,
}

/// The request that asks for `url` and is answered on `response_channel`.
pub fn request_for(url: &str, response_channel: oneshot::Sender<Reply>) -> (request:
    DownloadRequest)
    ensures
        request.url@ == url@,
        request.response_channel == response_channel,
{
    DownloadRequest { url: url.to_owned(), response_channel }
}

/// The cache of assets of type `A`.
///
/// `D` turns a payload into an asset, or refuses it; `R` renders a text into
/// an asset and measures it. Assets are handed out as shared handles; the
/// cache is their only writer.
#[verifier::reject_recursive_types(A)]
pub struct AsyncResourceManager<A, D, R> {
    decode: D,
    cache: StringHashMap<Rc<A>>,
    font_cache: StringHashMap<(Rc<A>, (u32, u32))>,
    in_progress: InFlight,
    undecodable: StringHashSet,
    render: R,
    tx: mpsc::Sender<DownloadRequest>,
}

impl<A, D, R> View for AsyncResourceManager<A, D, R> {
    type V = CacheState<A>;

    closed spec fn view(&self) -> CacheState<A> {
        CacheState {
            cache: self.cache@,
            in_flight: self.in_progress@,
            undecodable: self.undecodable@,
            text: self.font_cache@,
        }
    }
}

impl<A, D: Fn(&[u8]) -> Option<A>, R: Fn(&str) -> (A, (u32, u32))> AsyncResourceManager<A, D, R> {
    /// The decoder.
    pub closed spec fn decoder(&self) -> D {
        self.decode
    }

    /// The renderer.
    pub closed spec fn renderer(&self) -> R {
        self.render
    }

    /// The sending end of the request queue.
    pub closed spec fn queue(&self) -> mpsc::Sender<DownloadRequest> {
        self.tx
    }

    /// The receiving end that is kept under each key in flight: where the
    /// reply of the key's request will arrive.
    pub closed spec fn handles(&self) -> Map<Seq<char>, oneshot::Receiver<Reply>> {
        self.in_progress.handles()
    }

    /// The decoder may return `out` for a payload that holds `data`.
    pub open spec fn decodes(&self, data: Seq<u8>, out: Option<A>) -> bool {
        exists|raw: &[u8]| raw@ == data && #[trigger] self.decoder().ensures((raw,), out)
    }

    /// The renderer may return `out` for `text`.
    pub open spec fn renders(&self, text: Seq<char>, out: (A, (u32, u32))) -> bool {
        exists|raw: &str| raw@ == text && #[trigger] self.renderer().ensures((raw,), out)
    }

    /// Every text that `later` holds and `earlier` did not is held as the
    /// renderer may return it.
    pub open spec fn rendered_since(&self, earlier: CacheState<A>, later: CacheState<A>) -> bool {
        forall|text: Seq<char>| #[trigger]
            later.text.contains_key(text) && !earlier.text.contains_key(text) ==> self.renders(
                text,
                (*later.text[text].0, later.text[text].1),
            )
    }

    /// The decoder takes every payload and the renderer every text.
    pub open spec fn backend_total(&self) -> bool {
        &&& forall|raw: &[u8]| self.decoder().requires((raw,))
        &&& forall|raw: &str| self.renderer().requires((raw,))
    }

    /// The cache is in order: no key is in flight twice, a key is in at most
    /// one of the three sets, and the decoder and the renderer take every
    /// input.
    pub closed spec fn wf(&self) -> bool {
        &&& self.in_progress.wf()
        &&& self@.wf()
        &&& self.backend_total()
    }

    /// Both managers work with the same decoder and renderer, and ask for
    /// fetches on the same queue.
    pub open spec fn same_backend(&self, other: &Self) -> bool {
        &&& self.decoder() == other.decoder()
        &&& self.renderer() == other.renderer()
        &&& self.queue() == other.queue()
    }

    /// What a cache in order is known to be: a key is in at most one of the
    /// three sets, a receiving end is kept for exactly the keys in flight,
    /// and the decoder and the renderer take every input.
    pub proof fn lemma_wf(&self)
        requires
            self.wf(),
        ensures
            self@.wf(),
            self.handles().dom() == self@.in_flight,
            self.backend_total(),
    {
        assert(self.handles().dom() =~= self@.in_flight);
    }

    /// `steps` is a way in which what was found in `found` may be taken in,
    /// one after the other: each step is under the key of what was found,
    /// and where that key is in flight when its turn comes, the step is a
    /// way in which what was found may come out.
    pub open spec fn takes_in(
        &self,
        found: Seq<(String, Probe)>,
        steps: Seq<(Seq<char>, Settled<A>)>,
    ) -> bool {
        &&& steps.len() == found.len()
        &&& forall|i: int|
            0 <= i < steps.len() ==> {
                &&& (#[trigger] steps[i]).0 == found[i].0@
                &&& self@.after_settles(steps.take(i)).in_flight.contains(steps[i].0)
                    ==> self.settles(found[i].1, steps[i].1)
            }
    }

    /// `settled` is a way in which `found` may come out: what the look at
    /// the channel found, and for a payload what the decoder may make of it.
    pub open spec fn settles(&self, found: Probe, settled: Settled<A>) -> bool {
        match found {
            Probe::Empty => settled is Waiting,
            Probe::Closed => settled is Failed,
            Probe::Ready(None) => settled is Failed,
            Probe::Ready(Some(response)) => match settled {
                Settled::Decoded(asset) => self.decodes(response@, Some(*asset)),
                Settled::Undecodable => self.decodes(response@, None),
                _ => false,
            },
        }
    }

    /// Every reply in `replies` is a way in which a look at a channel may
    /// come out with this decoder.
    pub open spec fn attainable(&self, replies: Map<Seq<char>, Settled<A>>) -> bool {
        forall|key: Seq<char>|
            replies.contains_key(key) ==> self.may_settle_as(#[trigger] replies[key])
    }

    /// `settled` is a way in which some look at a channel may come out with
    /// this decoder.
    pub open spec fn may_settle_as(&self, settled: Settled<A>) -> bool {
        exists|found: Probe| self.settles(found, settled)
    }

    /// An empty cache that decodes with `decode`, asks for fetches on `tx`
    /// and renders texts with `render`.
    pub fn new(decode: D, tx: mpsc::Sender<DownloadRequest>, render: R) -> (manager: Self)
        requires
            forall|raw: &[u8]| decode.requires((raw,)),
            forall|raw: &str| render.requires((raw,)),
        ensures
            manager.wf(),
            manager@ == CacheState::<A>::empty(),
            manager.decoder() == decode,
            manager.renderer() == render,
            manager.queue() == tx,
            manager.handles() == Map::<Seq<char>, oneshot::Receiver<Reply>>::empty(),
    {
        let manager = AsyncResourceManager {
            decode,
            cache: StringHashMap::new(),
            font_cache: StringHashMap::new(),
            in_progress: InFlight::new(),
            undecodable: StringHashSet::new(),
            render,
            tx,
        };
        manager
    }

    /// The asset and the measured size of `text`, rendered on the first call
    /// and taken from the cache on every later one: what is held for a text
    /// is returned, and the renderer is asked only for a text not yet held.
    pub fn get_text_texture_and_size(&mut self, text: &str) -> (out: (Rc<A>, (u32, u32)))
        requires
            old(self).wf(),
        ensures
            final(self).wf(),
            final(self).same_backend(old(self)),
            !old(self)@.text.contains_key(text@) ==> old(self).renders(text@, (*out.0, out.1)),
            out == old(self)@.text_result(text@, out),
            final(self)@ == old(self)@.after_text(text@, out),
            final(self).handles() == old(self).handles(),
    {
        if let Some(held) = self.font_cache.get(text) {
            return (share(&held.0), held.1);
        }
        assert(self.renderer().requires((text,)));
        let (asset, size) = (self.render)(text);
        let handle = Rc::new(asset);
        self.font_cache.insert(text.to_owned(), (share(&handle), size));
        assert(self.same_backend(old(self)));
        (handle, size)
    }

    /// What the cache has to say of `url` without asking the queue: the
    /// asset if it is cached, no asset if the key is in flight or its payload
    /// was refused, and nothing if the key is unknown.
    pub fn known(&self, url: &str) -> (out: Option<Option<Rc<A>>>)
        ensures
            match out {
                Some(found) => !self@.unknown(url@) && found == self@.held(url@),
                None => self@.unknown(url@),
            },
    {
        if let Some(asset) = self.cache.get(url) {
            return Some(Some(share(asset)));
        }
        if self.in_progress.contains(url) || self.undecodable.contains(url) {
            return Some(None);
        }
        None
    }

    /// The asset of `url`, if the cache has it. It never waits.
    ///
    /// Where the cache knows nothing of `url`, a fetch is asked for: the
    /// request made by [`request_for`] for `url` and a fresh reply channel is
    /// offered to the queue, and what becomes of it is what
    /// [`Self::record_offer`] makes of the queue's answer. The key is in
    /// flight from now on if the queue takes the request, and is left
    /// unknown, for a later call to try again, if the queue is full. A key in
    /// flight is not asked for a second time, and neither is one whose
    /// payload the decoder has refused. That the pipeline has shut down is
    /// the one failure: it cannot be started again.
    ///
    /// The receiving ends of the keys that were in flight are kept as they
    /// are.
    pub fn get_image_from_url(&mut self, url: &str) -> (out: Result<Option<Rc<A>>, PipelineClosed>)
        requires
            old(self).wf(),
        ensures
            final(self).wf(),
            final(self).same_backend(old(self)),
            exists|offer: Enqueue|
                {
                    &&& out == old(self)@.lookup_result(url@, offer)
                    &&& final(self)@ == old(self)@.after_lookup(url@, offer)
                },
            !old(self)@.unknown(url@) ==> final(self).handles() == old(self).handles(),
            old(self).handles() == final(self).handles().restrict(old(self)@.in_flight),
    {
        proof {
            self.lemma_wf();
        }
        if let Some(found) = self.known(url) {
            assert(Ok::<Option<Rc<A>>, PipelineClosed>(found) == self@.lookup_result(
                url@,
                Enqueue::Full,
            ));
            assert(self.handles() =~= self.handles().restrict(self@.in_flight));
            return Ok(found);
        }
        let (resp_tx, resp_rx) = reply_channel();
        let request = request_for(url, resp_tx);
        let offer = try_enqueue(&self.tx, request);
        let out = self.record_offer(url, resp_rx, offer);
        assert(old(self).handles() =~= self.handles().restrict(old(self)@.in_flight));
        out
    }

    /// What a lookup of `url` comes to once the queue has answered the
    /// request for it with `offer`; `rx` is where the reply will arrive.
    ///
    /// An unknown key whose request the queue took is in flight from now on,
    /// with `rx` kept under it. In every other case `rx` is dropped and the
    /// state stays as it is: the queue was full or closed, or the cache knew
    /// of the key, which then is answered as it stands.
    pub fn record_offer(&mut self, url: &str, rx: oneshot::Receiver<Reply>, offer: Enqueue) -> (out:
        Result<Option<Rc<A>>, PipelineClosed>)
        requires
            old(self).wf(),
        ensures
            final(self).wf(),
            final(self).same_backend(old(self)),
            out == old(self)@.lookup_result(url@, offer),
            final(self)@ == old(self)@.after_lookup(url@, offer),
            final(self).handles() == if old(self)@.unknown(url@) && offer == Enqueue::Accepted {
                old(self).handles().insert(url@, rx)
            } else {
                old(self).handles()
            },
    {
        if let Some(found) = self.known(url) {
            return Ok(found);
        }
        match offer {
            Enqueue::Accepted => {
                self.in_progress.insert(url.to_owned(), rx);
                assert(self@ =~= old(self)@.after_lookup(url@, offer));
                assert(self.same_backend(old(self)));
                Ok(None)
            },
            Enqueue::Full => Ok(None),
            Enqueue::Closed => Err(PipelineClosed),
        }
    }

    /// Takes in what a look at the reply channel of `key` found.
    ///
    /// Nothing changes while no reply has arrived, or if `key` is not in
    /// flight. Otherwise the key leaves the in-flight set and its receiving
    /// end is dropped: with a payload that the decoder accepts its asset is
    /// cached, with one that the decoder refuses the key is marked so that it
    /// is not fetched again, and with a failed fetch or an abandoned channel
    /// nothing is kept. The receiving ends of the keys that stay in flight
    /// are kept as they are.
    pub fn settle(&mut self, key: &str, found: Probe)
        requires
            old(self).wf(),
        ensures
            final(self).wf(),
            final(self).same_backend(old(self)),
            !old(self)@.in_flight.contains(key@) ==> final(self)@ == old(self)@,
            old(self)@.in_flight.contains(key@) ==> exists|settled: Settled<A>|
                {
                    &&& old(self).settles(found, settled)
                    &&& final(self)@ == old(self)@.after_settle(key@, settled)
                },
            final(self).handles() == old(self).handles().restrict(final(self)@.in_flight),
    {
        proof {
            self.lemma_wf();
        }
        if let Probe::Empty = found {
            assert(self.settles(found, Settled::Waiting));
            assert(self.handles() =~= self.handles().restrict(self@.in_flight));
            return ;
        }
        let at = self.in_progress.position(key);
        if at.is_none() {
            assert(self.handles() =~= self.handles().restrict(self@.in_flight));
            return ;
        }
        self.in_progress.remove_at(at.unwrap());
        assert(self.handles() =~= old(self).handles().restrict(self@.in_flight));
        assert(self.same_backend(old(self)));
        match found {
            Probe::Ready(Some(response)) => {
                let data = payload(&response);
                assert(self.decoder().requires((data,)));
                match (self.decode)(data) {
                    Some(asset) => {
                        let handle = Rc::new(asset);
                        self.cache.insert(key.to_owned(), handle);
                        assert(self@ =~= old(self)@.after_settle(key@, Settled::Decoded(handle)));
                        assert(old(self).decodes(response@, Some(*handle)));
                        assert(old(self).settles(found, Settled::Decoded(handle)));
                    },
                    None => {
                        self.undecodable.insert(key.to_owned());
                        assert(self@ =~= old(self)@.after_settle(key@, Settled::Undecodable));
                        assert(old(self).decodes(response@, None));
                        assert(old(self).settles(found, Settled::Undecodable));
                    },
                }
            },
            _ => {
                assert(self@ =~= old(self)@.after_settle(key@, Settled::Failed));
                assert(old(self).settles(found, Settled::Failed));
            },
        }
        assert(self.same_backend(old(self)));
    }

    /// Takes in what looks at reply channels found, one after the other in
    /// the order of `found`; each as [`Self::settle`] takes it in.
    pub fn harvest(&mut self, found: Vec<(String, Probe)>)
        requires
            old(self).wf(),
        ensures
            final(self).wf(),
            final(self).same_backend(old(self)),
            exists|steps: Seq<(Seq<char>, Settled<A>)>|
                {
                    &&& old(self).takes_in(found@, steps)
                    &&& final(self)@ == old(self)@.after_settles(steps)
                },
            final(self).handles() == old(self).handles().restrict(final(self)@.in_flight),
    {
        let ghost all = found@;
        let ghost mut steps: Seq<(Seq<char>, Settled<A>)> = Seq::empty();
        proof {
            self.lemma_wf();
            assert(self.handles() =~= self.handles().restrict(self@.in_flight));
        }
        for entry in it: found
            invariant
                it.seq() == all,
                all == found@,
                old(self).wf(),
                self.wf(),
                self.same_backend(old(self)),
                steps.len() == it.index(),
                self@ == old(self)@.after_settles(steps),
                old(self).takes_in(all.take(it.index() as int), steps),
                self.handles() == old(self).handles().restrict(self@.in_flight),
                forall|key: Seq<char>|
                    self@.in_flight.contains(key) ==> old(self)@.in_flight.contains(key),
        {
            let ghost before = *self;
            let ghost earlier = steps;
            let ghost i = earlier.len() as int;
            let (key, probed) = entry;
            self.settle(key.as_str(), probed);
            proof {
                let settled = if before@.in_flight.contains(key@) {
                    choose|settled: Settled<A>|
                        {
                            &&& before.settles(probed, settled)
                            &&& self@ == before@.after_settle(key@, settled)
                        }
                } else {
                    Settled::Waiting
                };
                steps = earlier.push((key@, settled));
                assert(steps.drop_last() =~= earlier);
                assert(self@ == old(self)@.after_settles(steps));
                assert(steps.take(i) =~= earlier);
                assert forall|j: int| 0 <= j < steps.len() implies {
                    &&& (#[trigger] steps[j]).0 == all.take(i + 1)[j].0@
                    &&& old(self)@.after_settles(steps.take(j)).in_flight.contains(steps[j].0)
                        ==> old(self).settles(all.take(i + 1)[j].1, steps[j].1)
                } by {
                    if j < i {
                        assert(steps[j] == earlier[j]);
                        assert(steps.take(j) =~= earlier.take(j));
                        assert(all.take(i + 1)[j] == all.take(i)[j]);
                    } else {
                        assert(all.take(i + 1)[j] == (key, probed));
                    }
                }
                before.lemma_wf();
                assert(self.handles() =~= old(self).handles().restrict(self@.in_flight));
            }
        }
        proof {
            assert(all.take(all.len() as int) =~= all);
        }
    }

    /// Harvests the replies that have arrived. Call it once per tick; it
    /// never waits.
    ///
    /// Every key in flight is looked at once, without waiting, and what was
    /// found is taken in by [`Self::harvest`] only after the last key has
    /// been looked at, so the order of the looks plays no part. A key whose
    /// reply has arrived, or whose channel was abandoned, is out of the
    /// in-flight set afterwards; a key without a reply stays in it, with its
    /// receiving end as it was.
    pub fn process_pending(&mut self)
        requires
            old(self).wf(),
        ensures
            final(self).wf(),
            final(self).same_backend(old(self)),
            exists|replies: Map<Seq<char>, Settled<A>>|
                {
                    &&& old(self).attainable(replies)
                    &&& final(self)@ == old(self)@.after_poll(replies)
                },
            final(self).handles() == old(self).handles().restrict(final(self)@.in_flight),
    {
        let mut arrived: Vec<(String, Probe)> = Vec::new();
        let mut i: usize = 0;
        proof {
            self.lemma_wf();
            self.in_progress.lemma_one_end_per_key();
        }
        while i < self.in_progress.len()
            invariant
                old(self).wf(),
                self.wf(),
                self.same_backend(old(self)),
                self@ == old(self)@,
                self.in_progress.keys() == old(self).in_progress.keys(),
                self.in_progress.receivers().len() == self.in_progress.keys().len(),
                old(self).in_progress.receivers().len() == self.in_progress.keys().len(),
                i <= self.in_progress.keys().len(),
                forall|a: int|
                    0 <= a < arrived.len() ==> !((#[trigger] arrived[a]).1 is Empty) && exists|
                        t: int,
                    | 0 <= t < i && self.in_progress.keys()[t] == arrived[a].0@,
                forall|a: int, b: int|
                    0 <= a < b < arrived.len() ==> (#[trigger] arrived[a]).0@ != (
                    #[trigger] arrived[b]).0@,
                forall|t: int|
                    0 <= t < self.in_progress.keys().len() ==> self.in_progress.receivers()[t]
                        == old(self).in_progress.receivers()[t] || exists|a: int|
                        0 <= a < arrived.len() && (#[trigger] arrived[a]).0@
                            == self.in_progress.keys()[t],
            decreases self.in_progress.keys().len() - i,
        {
            let ghost before = arrived@;
            let found = self.in_progress.probe_at(i);
            match found {
                Probe::Empty => {},
                _ => {
                    let key = self.in_progress.key_at(i);
                    proof {
                        let keys = self.in_progress.keys();
                        assert forall|a: int| 0 <= a < arrived.len() implies (
                        #[trigger] arrived[a]).0@ != key@ by {
                            let t = choose|t: int| 0 <= t < i && keys[t] == arrived[a].0@;
                            assert(keys[t] != keys[i as int]);
                        }
                    }
                    arrived.push((key, found));
                    assert(arrived[arrived.len() - 1].0@ == self.in_progress.keys()[i as int]);
                },
            }
            proof {
                assert forall|t: int| 0 <= t < self.in_progress.keys().len() implies
                    self.in_progress.receivers()[t] == old(self).in_progress.receivers()[t]
                    || exists|a: int|
                    0 <= a < arrived.len() && (#[trigger] arrived[a]).0@
                        == self.in_progress.keys()[t] by {
                    if t != i as int && self.in_progress.receivers()[t] != old(
                        self,
                    ).in_progress.receivers()[t] {
                        let a = choose|a: int|
                            0 <= a < before.len() && (#[trigger] before[a]).0@
                                == self.in_progress.keys()[t];
                        assert(arrived[a] == before[a]);
                    }
                }
                assert(self@ =~= old(self)@);
                assert(self.same_backend(old(self)));
            }
            i += 1;
        }
        let ghost probed = *self;
        let ghost listed = arrived@;
        self.harvest(arrived);
        proof {
            let steps = choose|steps: Seq<(Seq<char>, Settled<A>)>|
                {
                    &&& probed.takes_in(listed, steps)
                    &&& self@ == probed@.after_settles(steps)
                };
            let replies = CacheState::replies_of(steps);
            assert(CacheState::one_step_per_key(steps));
            lemma_settles_are_a_poll(old(self)@, steps);
            assert forall|key: Seq<char>| replies.contains_key(key) implies old(
                self,
            ).may_settle_as(#[trigger] replies[key]) by {
                let j = choose|j: int| 0 <= j < steps.len() && (#[trigger] steps[j]).0 == key;
                let sooner = steps.take(j);
                assert(CacheState::one_step_per_key(sooner)) by {
                    assert forall|a: int, b: int| 0 <= a < b < sooner.len() implies (
                    #[trigger] sooner[a]).0 != (#[trigger] sooner[b]).0 by {
                        assert(sooner[a] == steps[a] && sooner[b] == steps[b]);
                    }
                }
                lemma_settles_are_a_poll(old(self)@, sooner);
                if CacheState::replies_of(sooner).contains_key(key) {
                    let a = choose|a: int| 0 <= a < sooner.len() && (#[trigger] sooner[a]).0 == key;
                    assert(steps[a].0 == steps[j].0);
                }
                assert(old(self)@.in_flight.contains(key)) by {
                    let t = choose|t: int|
                        0 <= t < i && probed.in_progress.keys()[t] == listed[j].0@;
                    assert(probed.in_progress.keys()[t] == key);
                }
                assert(probed.settles(listed[j].1, steps[j].1));
                assert(old(self).settles(listed[j].1, steps[j].1));
            }
            assert(old(self).attainable(replies));
            assert(self@ == old(self)@.after_poll(replies));
            // The receiving end of a key that stays in flight was found empty.
            assert forall|key: Seq<char>|
                self@.in_flight.contains(key) implies probed.handles()[key] == old(
                self,
            ).handles()[key] by {
                let t = choose|t: int|
                    0 <= t < probed.in_progress.keys().len() && probed.in_progress.keys()[t]
                        == key;
                probed.in_progress.lemma_handle_at(t);
                old(self).in_progress.lemma_handle_at(t);
                if probed.in_progress.receivers()[t] != old(self).in_progress.receivers()[t] {
                    let a = choose|a: int|
                        0 <= a < listed.len() && (#[trigger] listed[a]).0@ == key;
                    assert(steps[a].0 == key);
                    assert(replies[key] == steps[a].1);
                    assert(!(steps[a].1 is Waiting)) by {
                        let sooner = steps.take(a);
                        assert(CacheState::one_step_per_key(sooner)) by {
                            assert forall|x: int, y: int| 0 <= x < y < sooner.len() implies (
                            #[trigger] sooner[x]).0 != (#[trigger] sooner[y]).0 by {
                                assert(sooner[x] == steps[x] && sooner[y] == steps[y]);
                            }
                        }
                        lemma_settles_are_a_poll(old(self)@, sooner);
                        if CacheState::replies_of(sooner).contains_key(key) {
                            let b = choose|b: int|
                                0 <= b < sooner.len() && (#[trigger] sooner[b]).0 == key;
                            assert(steps[b].0 == steps[a].0);
                        }
                        assert(probed.settles(listed[a].1, steps[a].1));
                    }
                }
            }
            probed.lemma_wf();
            old(self).lemma_wf();
            assert(self.handles() =~= old(self).handles().restrict(self@.in_flight));
        }
    }

    /// Whether a fetch for `key` is under way.
    pub fn is_in_flight(&self, key: &str) -> (found: bool)
        ensures
            found == self@.in_flight.contains(key@),
    {
        self.in_progress.contains(key)
    }

    /// The number of fetches under way.
    pub fn in_flight_count(&self) -> (n: usize)
        requires
            self.wf(),
        ensures
            n == self@.in_flight.len(),
    {
        self.in_progress.len()
    }

    /// Whether the cache holds an asset for `key`.
    pub fn is_cached(&self, key: &str) -> (found: bool)
        ensures
            found == self@.cache.contains_key(key@),
    {
        self.cache.contains_key(key)
    }
}

} // verus!
