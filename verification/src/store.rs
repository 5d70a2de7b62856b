//! The mutable state: a key/value map of text and an expiration index,
//! together with the operations command handlers are allowed to perform,
//! and the sweep that deletes keys whose expiry instant has passed.

use vstd::prelude::*;
use vstd::hash_map::StringHashMap;
use crate::ttl::TtlQueue;
use crate::ttl::ttl_contents;
use crate::ttl::ttl_empty;
use crate::ttl::ttl_new;
use crate::ttl::ttl_peek;
use crate::ttl::ttl_pop;
use crate::ttl::ttl_push;
use crate::ttl::ttl_remove;

verus! {

/// The empty key/value map.
pub open spec fn kv_empty() -> Map<Seq<char>, Seq<char>> {
    Map::empty()
}

/// The keys of the index whose instant lies strictly before `now`.
pub open spec fn due_keys(ttl: Map<Seq<char>, u64>, now: u64) -> Set<Seq<char>> {
    ttl.dom().filter(|k: Seq<char>| ttl[k] < now)
}

spec fn flag_measure(done: bool) -> int {
    if done {
        0
    } else {
        1
    }
}

/// The process-wide state. All stored values are text; the expiration index
/// maps a key to the absolute instant, in milliseconds, at which it
/// expires. The index may keep naming keys that the map no longer holds;
/// the sweep tolerates such entries.
pub struct Store {
    keystore: StringHashMap<String>,
    ttl: TtlQueue,
}

impl Store {
    /// The key/value map this store denotes.
    pub closed spec fn kv(self) -> Map<Seq<char>, Seq<char>> {
        Map::new(
            |k: Seq<char>| self.keystore@.contains_key(k),
            |k: Seq<char>| self.keystore@[k]@,
        )
    }

    /// The expiration index this store denotes.
    pub closed spec fn ttl_map(self) -> Map<Seq<char>, u64> {
        ttl_contents(self.ttl)
    }

    /// Creates the empty store.
    pub fn new() -> (s: Store)
        ensures
            s.kv() == kv_empty(),
            s.ttl_map() == ttl_empty(),
    {
        let s = Store { keystore: StringHashMap::new(), ttl: ttl_new() };
        proof {
            assert(s.kv() =~= kv_empty());
        }
        s
    }

    /// The value under the key, if any.
    pub fn get(&self, key: &String) -> (r: Option<String>)
        ensures
            match r {
                Some(v) => self.kv().contains_key(key@) && v@ == self.kv()[key@],
                None => !self.kv().contains_key(key@),
            },
    {
        match self.keystore.get(key.as_str()) {
            Some(v) => Some(v.clone()),
            None => None,
        }
    }

    /// Whether the key is present.
    pub fn contains(&self, key: &String) -> (r: bool)
        ensures
            r == self.kv().contains_key(key@),
    {
        self.keystore.contains_key(key.as_str())
    }

    /// Unconditional upsert. The expiration index is untouched.
    pub fn set(&mut self, key: String, value: String)
        ensures
            final(self).kv() == old(self).kv().insert(key@, value@),
            final(self).ttl_map() == old(self).ttl_map(),
    {
        let ghost k = key@;
        let ghost v = value@;
        self.keystore.insert(key, value);
        proof {
            assert(self.kv() =~= old(self).kv().insert(k, v));
        }
    }

    /// Removes the key, returning the old value. The expiration index is
    /// untouched.
    pub fn delete(&mut self, key: &String) -> (r: Option<String>)
        ensures
            final(self).kv() == old(self).kv().remove(key@),
            final(self).ttl_map() == old(self).ttl_map(),
            match r {
                Some(v) => old(self).kv().contains_key(key@) && v@ == old(self).kv()[key@],
                None => !old(self).kv().contains_key(key@),
            },
    {
        let r = match self.keystore.get(key.as_str()) {
            Some(v) => Some(v.clone()),
            None => None,
        };
        self.keystore.remove(key.as_str());
        proof {
            assert(self.kv() =~= old(self).kv().remove(key@));
        }
        r
    }

    /// Upserts the key's expiry instant. The key/value map is untouched.
    pub fn set_expiration(&mut self, key: &String, instant: u64)
        ensures
            final(self).ttl_map() == old(self).ttl_map().insert(key@, instant),
            final(self).kv() == old(self).kv(),
    {
        ttl_push(&mut self.ttl, key, instant);
        proof {
            assert(self.kv() =~= old(self).kv());
        }
    }

    /// Drops the key from the expiration index; without an entry there the
    /// store is left as it was. The key/value map is untouched.
    pub fn clear_expiration(&mut self, key: &String)
        ensures
            final(self).ttl_map() == old(self).ttl_map().remove(key@),
            final(self).kv() == old(self).kv(),
    {
        ttl_remove(&mut self.ttl, key);
        proof {
            assert(self.kv() =~= old(self).kv());
        }
    }

    /// An entry of the expiration index whose instant is least, without
    /// removing it; `None` exactly on an empty index.
    pub fn peek_earliest_expiration(&self) -> (r: Option<(String, u64)>)
        ensures
            match r {
                Some(p) => self.ttl_map().contains_pair(p.0@, p.1) && (forall|k: Seq<char>|
                    #[trigger] self.ttl_map().dom().contains(k) ==> p.1 <= self.ttl_map()[k]),
                None => self.ttl_map() == ttl_empty(),
            },
    {
        ttl_peek(&self.ttl)
    }

    /// Removes and returns an entry of the expiration index whose instant
    /// is least; `None` exactly on an empty index. The key/value map is
    /// untouched.
    pub fn pop_earliest_expiration(&mut self) -> (r: Option<(String, u64)>)
        ensures
            final(self).kv() == old(self).kv(),
            old(self).ttl_map().dom().finite(),
            match r {
                Some(p) => old(self).ttl_map().contains_pair(p.0@, p.1) && (forall|k: Seq<char>|
                    #[trigger] old(self).ttl_map().dom().contains(k) ==> p.1 <= old(
                        self,
                    ).ttl_map()[k]) && final(self).ttl_map() == old(self).ttl_map().remove(p.0@),
                None => old(self).ttl_map() == ttl_empty() && final(self).ttl_map() == old(
                    self,
                ).ttl_map(),
            },
    {
        let r = ttl_pop(&mut self.ttl);
        proof {
            assert(self.kv() =~= old(self).kv());
        }
        r
    }

    /// One sweep: deletes every key whose expiry instant lies strictly
    /// before `now`, from the key/value map and from the index alike, and
    /// no other. A due key that a command already removed is deleted again
    /// without effect.
    pub fn sweep_expired(&mut self, now: u64)
        ensures
            final(self).kv() == old(self).kv().remove_keys(due_keys(old(self).ttl_map(), now)),
            final(self).ttl_map() == old(self).ttl_map().remove_keys(
                due_keys(old(self).ttl_map(), now),
            ),
    {
        let ghost kv0 = self.kv();
        let ghost ttl0 = self.ttl_map();
        let ghost due = due_keys(ttl0, now);
        let ghost removed = Set::<Seq<char>>::empty();
        proof {
            assert(self.kv() =~= kv0.remove_keys(removed));
            assert(self.ttl_map() =~= ttl0.remove_keys(removed));
        }
        let mut done = false;
        while !done
            invariant
                self.kv() == kv0.remove_keys(removed),
                self.ttl_map() == ttl0.remove_keys(removed),
                removed.subset_of(due),
                due == due_keys(ttl0, now),
                done ==> (forall|k: Seq<char>|
                    #[trigger] self.ttl_map().dom().contains(k) ==> self.ttl_map()[k] >= now),
            decreases self.ttl_map().dom().len(), flag_measure(done),
        {
            let next = self.peek_earliest_expiration();
            match next {
                None => {
                    done = true;
                },
                Some((key, t)) => {
                    if t < now {
                        let popped = self.pop_earliest_expiration();
                        match popped {
                            None => {
                                // `peek` saw an entry, so the queue cannot
                                // be empty here.
                                proof {
                                    assert(false);
                                }
                                done = true;
                            },
                            Some((key2, t2)) => {
                                let ghost mid_ttl = ttl0.remove_keys(removed);
                                proof {
                                    assert(t2 <= t);
                                    assert(mid_ttl.contains_pair(key2@, t2));
                                    assert(ttl0.contains_pair(key2@, t2));
                                    assert(due.contains(key2@));
                                }
                                let _ = self.delete(&key2);
                                proof {
                                    let removed2 = removed.insert(key2@);
                                    assert(self.kv() =~= kv0.remove_keys(removed2));
                                    assert(self.ttl_map() =~= ttl0.remove_keys(removed2));
                                    removed = removed2;
                                }
                            },
                        }
                    } else {
                        done = true;
                        proof {
                            assert(forall|k: Seq<char>|
                                #[trigger] self.ttl_map().dom().contains(k) ==> self.ttl_map()[k]
                                    >= now);
                        }
                    }
                },
            }
        }
        proof {
            assert forall|k: Seq<char>| due.contains(k) implies removed.contains(k) by {
                if !removed.contains(k) {
                    assert(ttl0.dom().contains(k));
                    assert(ttl0.remove_keys(removed).dom().contains(k));
                    assert(self.ttl_map()[k] == ttl0[k]);
                    assert(ttl0[k] < now);
                }
            }
            assert(removed =~= due);
        }
    }
}

/// A key whose instant lies strictly before `now` is in neither map after
/// one sweep, whether or not a command had already removed it.
pub proof fn lemma_sweep_removes_due(
    kv: Map<Seq<char>, Seq<char>>,
    ttl: Map<Seq<char>, u64>,
    k: Seq<char>,
    now: u64,
)
    requires
        ttl.contains_key(k),
        ttl[k] < now,
    ensures
        !kv.remove_keys(due_keys(ttl, now)).contains_key(k),
        !ttl.remove_keys(due_keys(ttl, now)).contains_key(k),
{
    assert(due_keys(ttl, now).contains(k));
}

} // verus!
