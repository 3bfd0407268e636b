//! Which namespaces a server of many keeps open.
//!
//! Opening a namespace may find the server at its limit. The namespace that has
//! been idle longest then makes room, if it has been idle long enough.

use std::time::Duration;
use vstd::prelude::*;

use crate::span::nanos;

verus! {

/// What becomes of a namespace that is to be opened.
#[derive(Debug, Clone, Copy, PartialEq, Eq, Structural)]
pub enum Room {
    /// There is room for it.
    Free,
    /// There is room once the namespace at that place is evicted.
    Evict { at: usize },
    /// Every open namespace is in use.
    Full,
}

/// What a request is told whose namespace finds no room.
pub const NO_ROOM: &'static str =
    "too many namespaces are open and none has been idle long enough; retry";

/// Whether a namespace has been idle long enough to be evicted.
pub open spec fn evictable(idle: Duration, timeout: Duration) -> bool {
    nanos(idle) >= nanos(timeout)
}

/// Whether the namespace at a place is the one to evict: it has been idle long
/// enough and longer than every one before it, and none has been idle longer.
pub open spec fn is_oldest(idle: Seq<Duration>, timeout: Duration, at: int) -> bool {
    &&& 0 <= at < idle.len()
    &&& evictable(idle[at], timeout)
    &&& forall|j: int| 0 <= j < at ==> nanos(#[trigger] idle[j]) < nanos(idle[at])
    &&& forall|j: int| 0 <= j < idle.len() ==> nanos(#[trigger] idle[j]) <= nanos(idle[at])
}

/// Where a namespace finds room beside those that are open. `idle` tells for each
/// of them how long it has not been used, and a limit of zero is none.
pub fn make_room(idle: &Vec<Duration>, max_namespaces: usize, idle_timeout: Duration) -> (r: Room)
    ensures
        match r {
            Room::Free => max_namespaces == 0 || idle@.len() < max_namespaces,
            Room::Evict { at } => max_namespaces > 0 && idle@.len() >= max_namespaces && is_oldest(
                idle@,
                idle_timeout,
                at as int,
            ),
            Room::Full => max_namespaces > 0 && idle@.len() >= max_namespaces && forall|j: int|
                0 <= j < idle@.len() ==> !evictable(#[trigger] idle@[j], idle_timeout),
        },
{
    if max_namespaces == 0 || idle.len() < max_namespaces {
        return Room::Free;
    }
    let mut oldest: usize = 0;
    let mut i: usize = 1;
    while i < idle.len()
        invariant
            1 <= i <= idle@.len(),
            oldest < i,
            forall|j: int| 0 <= j < oldest ==> nanos(#[trigger] idle@[j]) < nanos(
                idle@[oldest as int],
            ),
            forall|j: int| 0 <= j < i ==> nanos(#[trigger] idle@[j]) <= nanos(
                idle@[oldest as int],
            ),
        decreases idle.len() - i,
    {
        if idle[i].as_nanos() > idle[oldest].as_nanos() {
            oldest = i;
        }
        i = i + 1;
    }
    if idle[oldest].as_nanos() >= idle_timeout.as_nanos() {
        Room::Evict { at: oldest }
    } else {
        Room::Full
    }
}

/// There is one namespace to evict at most, and it has been idle long enough.
pub proof fn law_eviction_is_settled(idle: Seq<Duration>, timeout: Duration, a: int, b: int)
    requires
        is_oldest(idle, timeout, a),
        is_oldest(idle, timeout, b),
    ensures
        a == b,
        evictable(idle[a], timeout),
        nanos(idle[a]) >= nanos(timeout),
{
}

/// Where some namespace has been idle for the whole timeout, one is to be
/// evicted, and no other has been idle for longer.
pub proof fn law_idle_namespace_makes_room(idle: Seq<Duration>, timeout: Duration, i: int) -> (at:
    int)
    requires
        0 <= i < idle.len(),
        nanos(idle[i]) >= nanos(timeout),
    ensures
        is_oldest(idle, timeout, at),
        nanos(idle[at]) >= nanos(idle[i]),
{
    lemma_first_longest(idle, idle.len() as int)
}

proof fn lemma_first_longest(idle: Seq<Duration>, n: int) -> (at: int)
    requires
        0 < n <= idle.len(),
    ensures
        0 <= at < n,
        forall|j: int| 0 <= j < at ==> nanos(#[trigger] idle[j]) < nanos(idle[at]),
        forall|j: int| 0 <= j < n ==> nanos(#[trigger] idle[j]) <= nanos(idle[at]),
    decreases n,
{
    if n == 1 {
        0
    } else {
        let at = lemma_first_longest(idle, n - 1);
        if nanos(idle[n - 1]) > nanos(idle[at]) {
            n - 1
        } else {
            at
        }
    }
}

} // verus!
