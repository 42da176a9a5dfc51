//! The requests that the pipeline has accepted and not yet answered.

use crate::async_resource_manager::Reply;
use crate::channels::{probe, Probe};
use tokio::sync::oneshot;
use vstd::prelude::*;

verus! {

/// One accepted request: its key and the end on which its reply will arrive.
struct Pending {
    key: String,
    rx: oneshot::Receiver<Reply>,
}

/// The accepted requests, each under its key, in the order of acceptance.
///
/// No key occurs twice.
pub struct InFlight {
    entries: Vec<Pending>,
}

impl View for InFlight {
    type V = Set<Seq<char>>;

    /// The keys in flight.
    open spec fn view(&self) -> Set<Seq<char>> {
        self.keys().to_set()
    }
}

impl InFlight {
    /// The keys, in the order of acceptance.
    pub closed spec fn keys(&self) -> Seq<Seq<char>> {
        self.entries@.map_values(|p: Pending| p.key@)
    }

    /// The receiving ends, each at the position of its key.
    pub closed spec fn receivers(&self) -> Seq<oneshot::Receiver<Reply>> {
        self.entries@.map_values(|p: Pending| p.rx)
    }

    /// No key occurs twice.
    pub open spec fn wf(&self) -> bool {
        self.keys().no_duplicates()
    }

    /// The receiving end that is kept under each key in flight.
    pub open spec fn handles(&self) -> Map<Seq<char>, oneshot::Receiver<Reply>> {
        Map::new(
            |key: Seq<char>| self.keys().contains(key),
            |key: Seq<char>|
                self.receivers()[choose|i: int|
                    0 <= i < self.keys().len() && self.keys()[i] == key],
        )
    }

    /// There are as many receiving ends as keys.
    pub proof fn lemma_one_end_per_key(&self)
        ensures
            self.receivers().len() == self.keys().len(),
    {
    }

    /// The end kept under the key at a position is the one at that position,
    /// and ends are kept for the keys in flight and no others.
    pub proof fn lemma_handle_at(&self, i: int)
        requires
            self.wf(),
            0 <= i < self.keys().len(),
        ensures
            self.handles().contains_key(self.keys()[i]),
            self.handles()[self.keys()[i]] == self.receivers()[i],
            self.handles().dom() == self@,
    {
        let keys = self.keys();
        let found = choose|j: int| 0 <= j < keys.len() && keys[j] == keys[i];
        assert(found == i);
        assert(self.handles().dom() =~= self@);
    }

    pub fn new() -> (fresh: Self)
        ensures
            fresh.keys() == Seq::<Seq<char>>::empty(),
            fresh@ == Set::<Seq<char>>::empty(),
            fresh.handles() == Map::<Seq<char>, oneshot::Receiver<Reply>>::empty(),
            fresh.wf(),
    {
        let fresh = InFlight { entries: Vec::new() };
        assert(fresh.handles() =~= Map::<Seq<char>, oneshot::Receiver<Reply>>::empty());
        fresh
    }

    /// The number of keys in flight.
    pub fn len(&self) -> (n: usize)
        ensures
            n == self.keys().len(),
            self.wf() ==> n == self@.len(),
    {
        proof {
            if self.wf() {
                self.keys().unique_seq_to_set();
            }
        }
        self.entries.len()
    }

    /// A copy of the key at position `i`.
    pub fn key_at(&self, i: usize) -> (key: String)
        requires
            i < self.keys().len(),
        ensures
            key@ == self.keys()[i as int],
    {
        self.entries[i].key.clone()
    }

    /// Where `key` stands, if it is in flight.
    pub fn position(&self, key: &str) -> (at: Option<usize>)
        ensures
            match at {
                Some(i) => i < self.keys().len() && self.keys()[i as int] == key@,
                None => !self.keys().contains(key@),
            },
    {
        let wanted = key.to_owned();
        let mut i: usize = 0;
        while i < self.entries.len()
            invariant
                i <= self.entries.len(),
                wanted@ == key@,
                forall|j: int| 0 <= j < i ==> self.keys()[j] != key@,
            decreases self.entries.len() - i,
        {
            if self.entries[i].key == wanted {
                return Some(i);
            }
            i += 1;
        }
        None
    }

    pub fn contains(&self, key: &str) -> (found: bool)
        ensures
            found == self@.contains(key@),
    {
        self.position(key).is_some()
    }

    /// Records a newly accepted request.
    pub fn insert(&mut self, key: String, rx: oneshot::Receiver<Reply>)
        requires
            old(self).wf(),
            !old(self)@.contains(key@),
        ensures
            final(self).wf(),
            final(self).keys() == old(self).keys().push(key@),
            final(self).receivers() == old(self).receivers().push(rx),
            final(self)@ == old(self)@.insert(key@),
            final(self).handles() == old(self).handles().insert(key@, rx),
    {
        self.entries.push(Pending { key, rx });
        assert(self.keys() =~= old(self).keys().push(key@));
        assert(self.receivers() =~= old(self).receivers().push(rx));
        proof {
            old(self).keys().lemma_push_to_set_commute(key@);
            let last = self.keys().len() - 1;
            assert forall|k: Seq<char>| self.handles().contains_key(k) implies self.handles()[k]
                == old(self).handles().insert(key@, rx)[k] by {
                let j = choose|j: int| 0 <= j < self.keys().len() && self.keys()[j] == k;
                if j < last {
                    old(self).lemma_handle_at(j);
                } else {
                    assert(k == key@);
                }
            }
            assert(self.handles() =~= old(self).handles().insert(key@, rx));
        }
    }

    /// Forgets the request at position `i`, dropping its receiving end.
    pub fn remove_at(&mut self, i: usize)
        requires
            old(self).wf(),
            i < old(self).keys().len(),
        ensures
            final(self).wf(),
            final(self).keys() == old(self).keys().remove(i as int),
            final(self).receivers() == old(self).receivers().remove(i as int),
            final(self)@ == old(self)@.remove(old(self).keys()[i as int]),
            final(self).handles() == old(self).handles().remove(old(self).keys()[i as int]),
    {
        let _ = self.entries.remove(i);
        assert(self.keys() =~= old(self).keys().remove(i as int));
        assert(self.receivers() =~= old(self).receivers().remove(i as int));
        proof {
            assert forall|k: Seq<char>| self.handles().contains_key(k) implies self.handles()[k]
                == old(self).handles()[k] && k != old(self).keys()[i as int] by {
                let j = choose|j: int| 0 <= j < self.keys().len() && self.keys()[j] == k;
                self.lemma_handle_at(j);
                if j < i {
                    old(self).lemma_handle_at(j);
                } else {
                    old(self).lemma_handle_at(j + 1);
                }
            }
        }
        proof {
            let keys = old(self).keys();
            assert forall|k: Seq<char>| keys.to_set().remove(keys[i as int]).contains(
                k,
            ) implies keys.remove(i as int).to_set().contains(k) by {
                let j = choose|j: int| 0 <= j < keys.len() && keys[j] == k;
                if j < i {
                    assert(keys.remove(i as int)[j] == k);
                } else {
                    assert(keys.remove(i as int)[j - 1] == k);
                }
            }
        }
    }

    /// Looks, without waiting, whether the reply of the request at position
    /// `i` has arrived. The keys stay as they are, and so does every
    /// receiving end but the one that was looked at; that one too stays as it
    /// is while no reply has arrived.
    pub fn probe_at(&mut self, i: usize) -> (found: Probe)
        requires
            i < old(self).keys().len(),
        ensures
            final(self).keys() == old(self).keys(),
            final(self)@ == old(self)@,
            final(self).receivers().len() == old(self).receivers().len(),
            forall|j: int|
                0 <= j < old(self).receivers().len() && j != i ==> final(self).receivers()[j]
                    == old(self).receivers()[j],
            found is Empty ==> final(self).receivers() == old(self).receivers(),
    {
        let found = probe(&mut self.entries[i].rx);
        assert(found is Empty ==> self.receivers() =~= old(self).receivers());
        found
    }
}

} // verus!
