//! The expiration index: a priority queue of keys ordered by expiry
//! instant, earliest first.
//!
//! The queue itself comes from the `priority_queue` crate, a max-priority
//! queue with at most one entry per key; storing each instant under
//! [`core::cmp::Reverse`] makes its greatest priority the earliest instant.
//! Verus sees the queue only through [`ttl_contents`], the map of keys to
//! instants it holds, and through the small trusted wrappers below, each
//! relying on one method of the crate.

use vstd::prelude::*;
use priority_queue::PriorityQueue;
use core::cmp::Reverse;
use std::collections::hash_map::RandomState;

verus! {

#[verifier::external_type_specification]
#[verifier::external_body]
#[verifier::reject_recursive_types(I)]
#[verifier::reject_recursive_types(P)]
#[verifier::reject_recursive_types(H)]
pub struct ExPriorityQueue<I, P, H>(PriorityQueue<I, P, H>);

#[verifier::external_type_specification]
#[verifier::external_body]
#[verifier::reject_recursive_types(T)]
pub struct ExReverse<T>(Reverse<T>);

/// The concrete queue type: keys against reversed instants.
pub type TtlQueue = PriorityQueue<String, Reverse<u64>, RandomState>;

/// The empty index.
pub open spec fn ttl_empty() -> Map<Seq<char>, u64> {
    Map::empty()
}

/// What the queue holds: each key with its expiry instant.
pub uninterp spec fn ttl_contents(q: TtlQueue) -> Map<Seq<char>, u64>;

/// Relies on `PriorityQueue::new`: creates an empty queue.
#[verifier::external_body]
pub(crate) fn ttl_new() -> (q: TtlQueue)
    ensures
        ttl_contents(q) == ttl_empty(),
{
    PriorityQueue::new()
}

/// Relies on `PriorityQueue::push`: inserts the key with this instant, or,
/// for a key already present, replaces its instant.
#[verifier::external_body]
pub(crate) fn ttl_push(q: &mut TtlQueue, key: &String, instant: u64)
    ensures
        ttl_contents(*final(q)) == ttl_contents(*old(q)).insert(key@, instant),
{
    q.push(key.clone(), Reverse(instant));
}

/// Relies on `PriorityQueue::remove`: removes the key if present; a queue
/// without the key is left as it was.
#[verifier::external_body]
pub(crate) fn ttl_remove(q: &mut TtlQueue, key: &String)
    ensures
        ttl_contents(*final(q)) == ttl_contents(*old(q)).remove(key@),
{
    q.remove(key);
}

/// Relies on `PriorityQueue::peek`: returns a pair of greatest priority,
/// which under the reversed ordering is one whose instant is least, and
/// `None` exactly on an empty queue.
#[verifier::external_body]
pub(crate) fn ttl_peek(q: &TtlQueue) -> (r: Option<(String, u64)>)
    ensures
        match r {
            Some(p) => ttl_contents(*q).contains_pair(p.0@, p.1) && (forall|k: Seq<char>|
                #[trigger] ttl_contents(*q).dom().contains(k) ==> p.1 <= ttl_contents(*q)[k]),
            None => ttl_contents(*q) == ttl_empty(),
        },
{
    match q.peek() {
        Some((k, p)) => Some((k.clone(), p.0)),
        None => None,
    }
}

/// Relies on `PriorityQueue::pop`: removes and returns a pair of greatest
/// priority, which under the reversed ordering is one whose instant is
/// least, and returns `None` exactly on an empty queue. A queue holds
/// finitely many entries.
#[verifier::external_body]
pub(crate) fn ttl_pop(q: &mut TtlQueue) -> (r: Option<(String, u64)>)
    ensures
        ttl_contents(*old(q)).dom().finite(),
        match r {
            Some(p) => ttl_contents(*old(q)).contains_pair(p.0@, p.1) && (forall|k: Seq<char>|
                #[trigger] ttl_contents(*old(q)).dom().contains(k) ==> p.1 <= ttl_contents(
                    *old(q),
                )[k]) && ttl_contents(*final(q)) == ttl_contents(*old(q)).remove(p.0@),
            None => ttl_contents(*old(q)) == ttl_empty() && ttl_contents(
                *final(q),
            ) == ttl_contents(*old(q)),
        },
{
    match q.pop() {
        Some((k, p)) => Some((k, p.0)),
        None => None,
    }
}

} // verus!
