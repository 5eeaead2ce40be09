//! The pins that a run has resolved so far, one for each key.

use vstd::prelude::*;
use crate::pin::{PinKey, PinKeyView, SourcePin, SourcePinView};

verus! {

/// A key with the pin that was resolved for it.
#[derive(Debug)]
struct Resolved {
    key: PinKey,
    pin: SourcePin,
}

/// A map from keys to pins that lives as long as the run. A key gets its pin
/// once; the pin is never replaced.
#[derive(Debug)]
pub struct RevisionCache {
    entries: Vec<Resolved>,
}

impl RevisionCache {
    /// Where `key` stands among the entries, if it stands there.
    spec fn position(&self, key: PinKeyView) -> int {
        choose|i: int| 0 <= i < self.entries.len() && self.entries[i].key@ == key
    }

    /// No key stands twice among the entries.
    pub closed spec fn wf(&self) -> bool {
        forall|i: int, j: int|
            0 <= i < j < self.entries.len() ==> self.entries[i].key@ != self.entries[j].key@
    }

    /// The cache as a map from keys to pins.
    pub closed spec fn view(&self) -> Map<PinKeyView, SourcePinView> {
        Map::new(
            |key: PinKeyView|
                exists|i: int| 0 <= i < self.entries.len() && self.entries[i].key@ == key,
            |key: PinKeyView| self.entries[self.position(key)].pin@,
        )
    }

    /// What the map says of the entry at `i`.
    proof fn lemma_entry(&self, i: int)
        requires
            self.wf(),
            0 <= i < self.entries.len(),
        ensures
            self@.contains_key(self.entries[i].key@),
            self@[self.entries[i].key@] == self.entries[i].pin@,
    {
        let key = self.entries[i].key@;
        let j = self.position(key);
        assert(0 <= j < self.entries.len() && self.entries[j].key@ == key);
        assert(j == i);
    }

    /// A cache without pins.
    pub fn new() -> (cache: RevisionCache)
        ensures
            cache.wf(),
            cache@ == Map::<PinKeyView, SourcePinView>::empty(),
    {
        let cache = RevisionCache { entries: Vec::new() };
        assert(cache@ =~= Map::<PinKeyView, SourcePinView>::empty());
        cache
    }

    /// The number of pins.
    pub fn len(&self) -> (n: usize)
        requires
            self.wf(),
        ensures
            n == self@.len(),
            self@.dom().finite(),
    {
        proof {
            self.lemma_size(self.entries.len() as int);
            assert(self.upto(self.entries.len() as int) =~= self@.dom());
        }
        self.entries.len()
    }

    /// The keys of the first `n` entries.
    spec fn upto(&self, n: int) -> Set<PinKeyView> {
        Set::new(|key: PinKeyView| exists|i: int| 0 <= i < n && self.entries[i].key@ == key)
    }

    /// The first `n` entries have `n` keys.
    proof fn lemma_size(&self, n: int)
        requires
            self.wf(),
            0 <= n <= self.entries.len(),
        ensures
            self.upto(n).finite(),
            self.upto(n).len() == n,
        decreases n,
    {
        if n == 0 {
            assert(self.upto(0) =~= Set::<PinKeyView>::empty());
        } else {
            self.lemma_size(n - 1);
            let key = self.entries[n - 1].key@;
            assert(!self.upto(n - 1).contains(key));
            assert(self.upto(n) =~= self.upto(n - 1).insert(key));
        }
    }

    /// The pin of `key`, if the cache holds one.
    pub fn get(&self, key: &PinKey) -> (found: Option<&SourcePin>)
        requires
            self.wf(),
        ensures
            match found {
                Some(pin) => self@.contains_key(key@) && self@[key@] == pin@,
                None => !self@.contains_key(key@),
            },
    {
        let mut i: usize = 0;
        while i < self.entries.len()
            invariant
                self.wf(),
                i <= self.entries.len(),
                forall|k: int| 0 <= k < i ==> self.entries[k].key@ != key@,
            decreases self.entries.len() - i,
        {
            if self.entries[i].key.same(key) {
                proof {
                    self.lemma_entry(i as int);
                }
                return Some(&self.entries[i].pin);
            }
            i += 1;
        }
        None
    }

    /// Gives `key` the pin `pin` unless it has one already; a key that has a
    /// pin keeps it.
    pub fn store(&mut self, key: PinKey, pin: SourcePin)
        requires
            old(self).wf(),
        ensures
            final(self).wf(),
            final(self)@ == if old(self)@.contains_key(key@) {
                old(self)@
            } else {
                old(self)@.insert(key@, pin@)
            },
    {
        if self.get(&key).is_none() {
            let ghost before = *self;
            self.entries.push(Resolved { key, pin });
            proof {
                let n = before.entries.len() as int;
                assert(forall|i: int| 0 <= i < n ==> self.entries[i] == before.entries[i]);
                assert(self.wf());
                assert forall|k: PinKeyView| #[trigger]
                    self@.contains_key(k) == before@.insert(key@, pin@).contains_key(k) by {
                    if before@.contains_key(k) {
                        let i = before.position(k);
                        assert(self.entries[i].key@ == k);
                    }
                    if k == key@ {
                        assert(self.entries[n].key@ == k);
                    }
                }
                assert forall|k: PinKeyView| #[trigger] self@.contains_key(k) implies self@[k]
                    == before@.insert(key@, pin@)[k] by {
                    let i = self.position(k);
                    self.lemma_entry(i);
                    if i < n {
                        before.lemma_entry(i);
                    }
                }
                assert(self@ =~= before@.insert(key@, pin@));
            }
        }
    }
}

} // verus!
