//! The registry's guarantees across operations, stated and proved over the
//! operation effects that the methods of `ServState` ensure: handles only
//! grow, a consumed or removed handle stays dead, and the per-class counts
//! move by exactly one.

use crate::polling::PollingError;
use crate::polling::PollingState;
use crate::polling::ServState;
use crate::polling::WorkerProp;
use crate::polling::count_matching;
use crate::polling::enqueue_effect;
use crate::polling::lemma_remove_keeps_wf;
use crate::polling::poll_effect;
use crate::polling::remove_effect;
use vstd::prelude::*;

verus! {

/// One registry operation happened between the two states: an enqueue, a
/// poll, or a removal.
pub open spec fn registry_step<V, H>(pre: ServState<V, H>, post: ServState<V, H>) -> bool {
    ||| exists|prop: WorkerProp<V, H>, r: PollingState<V>|
        #[trigger] enqueue_effect(pre, post, prop, r)
    ||| exists|token: u64, r: PollingState<V>| #[trigger] poll_effect(pre, post, token, r)
    ||| exists|token: u64, r: PollingState<V>, cancel: Option<H>|
        #[trigger] remove_effect(pre, post, token, r, cancel)
}

/// Registering a record keeps handles pairwise distinct and below the
/// allocator's next handle.
proof fn lemma_enqueue_keeps_wf<V, H>(
    pre: ServState<V, H>,
    post: ServState<V, H>,
    prop: WorkerProp<V, H>,
    r: PollingState<V>,
)
    requires
        pre.wf(),
        enqueue_effect(pre, post, prop, r),
    ensures
        post.wf(),
{
    assert forall|i: int, j: int|
        0 <= i < j < post.entries().len() implies (#[trigger] post.entries()[i]).0 != (
    #[trigger] post.entries()[j]).0 by {
        if j < pre.entries().len() {
            assert(post.entries()[i] == pre.entries()[i]);
            assert(post.entries()[j] == pre.entries()[j]);
        } else {
            assert(post.entries()[i] == pre.entries()[i]);
            assert(post.entries()[j] == (pre.next_token(), prop));
        }
    }
    assert forall|i: int| 0 <= i < post.entries().len() implies (#[trigger] post.entries()[i]).0
        < post.next_token() by {
        if i < pre.entries().len() {
            assert(post.entries()[i] == pre.entries()[i]);
        } else {
            assert(post.entries()[i] == (pre.next_token(), prop));
        }
    }
}

/// A poll keeps the registry well-formed.
proof fn lemma_poll_keeps_wf<V, H>(
    pre: ServState<V, H>,
    post: ServState<V, H>,
    token: u64,
    r: PollingState<V>,
)
    requires
        pre.wf(),
        poll_effect(pre, post, token, r),
    ensures
        post.wf(),
{
    if pre.contains_token(token) {
        match r {
            PollingState::Done(_) => {
                let idx = pre.index_of(token);
                assert(0 <= idx < pre.entries().len() && pre.entries()[idx].0 == token);
                lemma_remove_keeps_wf(pre, idx);
            },
            _ => {},
        }
    }
}

/// A removal keeps the registry well-formed.
proof fn lemma_removal_keeps_wf<V, H>(
    pre: ServState<V, H>,
    post: ServState<V, H>,
    token: u64,
    r: PollingState<V>,
    cancel: Option<H>,
)
    requires
        pre.wf(),
        remove_effect(pre, post, token, r, cancel),
    ensures
        post.wf(),
{
    if pre.contains_token(token) {
        let idx = pre.index_of(token);
        assert(0 <= idx < pre.entries().len() && pre.entries()[idx].0 == token);
        lemma_remove_keeps_wf(pre, idx);
    }
}

/// Every registry operation preserves well-formedness: handles stay pairwise
/// distinct and below the allocator's next handle.
pub proof fn lemma_step_preserves_wf<V, H>(pre: ServState<V, H>, post: ServState<V, H>)
    requires
        pre.wf(),
        registry_step(pre, post),
    ensures
        post.wf(),
{
    if exists|prop: WorkerProp<V, H>, r: PollingState<V>|
        #[trigger] enqueue_effect(pre, post, prop, r) {
        let (prop, r) = choose|prop: WorkerProp<V, H>, r: PollingState<V>|
            enqueue_effect(pre, post, prop, r);
        lemma_enqueue_keeps_wf(pre, post, prop, r);
    } else if exists|token: u64, r: PollingState<V>| #[trigger] poll_effect(pre, post, token, r) {
        let (token, r) = choose|token: u64, r: PollingState<V>| poll_effect(pre, post, token, r);
        lemma_poll_keeps_wf(pre, post, token, r);
    } else {
        let (token, r, cancel) = choose|token: u64, r: PollingState<V>, cancel: Option<H>|
            remove_effect(pre, post, token, r, cancel);
        lemma_removal_keeps_wf(pre, post, token, r, cancel);
    }
}

/// No registry operation ever lowers the allocator's next handle: the handle
/// supply only moves forward, whatever is polled or removed in between.
pub proof fn lemma_step_next_token_monotonic<V, H>(pre: ServState<V, H>, post: ServState<V, H>)
    requires
        registry_step(pre, post),
    ensures
        pre.next_token() <= post.next_token(),
{
}

/// Handles strictly increase across enqueues: when one enqueue has finished
/// before another begins — so the allocator stands at least as far for the
/// second, which `lemma_step_next_token_monotonic` guarantees under any
/// interleaved operations — the second handle is strictly greater than the
/// first. Pairwise distinctness of all issued handles follows.
pub proof fn lemma_handles_strictly_increase<V, H>(
    pre1: ServState<V, H>,
    post1: ServState<V, H>,
    prop1: WorkerProp<V, H>,
    t1: u64,
    pre2: ServState<V, H>,
    post2: ServState<V, H>,
    prop2: WorkerProp<V, H>,
    t2: u64,
)
    requires
        enqueue_effect(pre1, post1, prop1, PollingState::Started(t1)),
        enqueue_effect(pre2, post2, prop2, PollingState::Started(t2)),
        post1.next_token() <= pre2.next_token(),
    ensures
        t1 < t2,
{
}

/// After the record at `token` is deleted, no record is registered under
/// `token` any more.
proof fn lemma_consumed_absent<V, H>(pre: ServState<V, H>, mid: ServState<V, H>, token: u64)
    requires
        pre.wf(),
        pre.contains_token(token),
        mid.entries() == pre.entries().remove(pre.index_of(token)),
    ensures
        !mid.contains_token(token),
{
    let idx = pre.index_of(token);
    assert(0 <= idx < pre.entries().len() && pre.entries()[idx].0 == token);
    pre.entries().remove_ensures(idx);
    assert forall|k: int| 0 <= k < mid.entries().len() implies (#[trigger] mid.entries()[k]).0
        != token by {
        let k0 = if k < idx {
            k
        } else {
            k + 1
        };
        assert(mid.entries()[k] == pre.entries()[k0]);
        if k0 < idx {
            assert(pre.entries()[k0].0 != pre.entries()[idx].0);
        } else {
            assert(pre.entries()[idx].0 != pre.entries()[k0].0);
        }
    }
}

/// Single consumption: once a poll answers `Done`, a poll of the same handle
/// against the resulting registry answers `NotExist` and changes nothing.
/// Operations in between cannot revive the handle
/// (`lemma_dead_token_stays_dead`).
pub proof fn lemma_single_consumption<V, H>(
    pre: ServState<V, H>,
    mid: ServState<V, H>,
    post: ServState<V, H>,
    token: u64,
    v: V,
    r2: PollingState<V>,
)
    requires
        pre.wf(),
        poll_effect(pre, mid, token, PollingState::Done(v)),
        poll_effect(mid, post, token, r2),
    ensures
        r2 == PollingState::<V>::Error(PollingError::NotExist),
        post == mid,
{
    assert(pre.contains_token(token));
    lemma_consumed_absent(pre, mid, token);
}

/// Removal finality: once `remove` answers `Removed`, both a poll and a
/// removal of the same handle against the resulting registry answer
/// `NotExist` and change nothing.
pub proof fn lemma_removal_finality<V, H>(
    pre: ServState<V, H>,
    mid: ServState<V, H>,
    token: u64,
    cancel: Option<H>,
    post1: ServState<V, H>,
    r1: PollingState<V>,
    post2: ServState<V, H>,
    r2: PollingState<V>,
    cancel2: Option<H>,
)
    requires
        pre.wf(),
        remove_effect(pre, mid, token, PollingState::Removed, cancel),
        poll_effect(mid, post1, token, r1),
        remove_effect(mid, post2, token, r2, cancel2),
    ensures
        r1 == PollingState::<V>::Error(PollingError::NotExist),
        post1 == mid,
        r2 == PollingState::<V>::Error(PollingError::NotExist),
        cancel2 == None::<H>,
        post2 == mid,
{
    assert(pre.contains_token(token));
    lemma_consumed_absent(pre, mid, token);
}

/// Idempotent absence: a handle the allocator has not issued yet is not
/// registered, so a poll and a removal of it both answer `NotExist` and
/// change nothing.
pub proof fn lemma_unissued_token_absent<V, H>(s: ServState<V, H>, token: u64)
    requires
        s.wf(),
        token >= s.next_token(),
    ensures
        !s.contains_token(token),
{
}

/// A handle that is absent and already below the allocator's next handle —
/// one consumed by a `Done` poll, removed, or simply skipped — stays absent
/// under every further operation: enqueues only register fresh handles, and
/// nothing else registers records at all.
pub proof fn lemma_dead_token_stays_dead<V, H>(
    pre: ServState<V, H>,
    post: ServState<V, H>,
    token: u64,
)
    requires
        pre.wf(),
        registry_step(pre, post),
        !pre.contains_token(token),
        token < pre.next_token(),
    ensures
        post.wf(),
        !post.contains_token(token),
        token < post.next_token(),
{
    lemma_step_preserves_wf(pre, post);
    lemma_step_next_token_monotonic(pre, post);
    if exists|prop: WorkerProp<V, H>, r: PollingState<V>|
        #[trigger] enqueue_effect(pre, post, prop, r) {
        let (prop, r) = choose|prop: WorkerProp<V, H>, r: PollingState<V>|
            enqueue_effect(pre, post, prop, r);
        assert forall|k: int| 0 <= k < post.entries().len() implies (#[trigger] post.entries()[k]).0
            != token by {
            if k < pre.entries().len() {
                assert(post.entries()[k] == pre.entries()[k]);
            } else {
                assert(post.entries()[k] == (pre.next_token(), prop));
            }
        }
    } else if exists|t2: u64, r: PollingState<V>| #[trigger] poll_effect(pre, post, t2, r) {
        let (t2, r) = choose|t2: u64, r: PollingState<V>| poll_effect(pre, post, t2, r);
        lemma_step_keeps_token_absent(pre, post, t2, token);
    } else {
        let (t2, r, cancel) = choose|t2: u64, r: PollingState<V>, cancel: Option<H>|
            remove_effect(pre, post, t2, r, cancel);
        lemma_step_keeps_token_absent(pre, post, t2, token);
    }
}

/// Between two positions of a run of registry operations, the allocator's
/// next handle never decreases.
proof fn lemma_trace_monotonic_between<V, H>(trace: Seq<ServState<V, H>>, i: int, j: int)
    requires
        forall|k: int| 0 <= k < trace.len() - 1 ==> #[trigger] registry_step(trace[k], trace[k + 1]),
        0 <= i <= j < trace.len(),
    ensures
        trace[i].next_token() <= trace[j].next_token(),
    decreases j - i,
{
    if i < j {
        lemma_trace_monotonic_between(trace, i, j - 1);
        let k = j - 1;
        assert(registry_step(trace[k], trace[k + 1]));
        lemma_step_next_token_monotonic(trace[j - 1], trace[j]);
    }
}

/// Along any run of registry operations — polls, removals and further
/// enqueues in any order — the allocator's next handle never decreases. With
/// `lemma_handles_strictly_increase` this gives monotonicity for any
/// sequence of enqueues: each handle exceeds every handle whose enqueue
/// finished before its own began.
pub proof fn lemma_trace_next_token_monotonic<V, H>(trace: Seq<ServState<V, H>>)
    requires
        forall|k: int| 0 <= k < trace.len() - 1 ==> #[trigger] registry_step(trace[k], trace[k + 1]),
    ensures
        forall|i: int, j: int|
            0 <= i <= j < trace.len() ==> (#[trigger] trace[i]).next_token() <= (
            #[trigger] trace[j]).next_token(),
{
    assert forall|i: int, j: int|
        0 <= i <= j < trace.len() implies (#[trigger] trace[i]).next_token() <= (
    #[trigger] trace[j]).next_token() by {
        lemma_trace_monotonic_between(trace, i, j);
    }
}

/// A dead handle stays dead along any run of registry operations: once a
/// well-formed registry holds no record under an already-issued handle —
/// after a `Done`-consuming poll or a removal — no later state holds one
/// either, so every subsequent poll or removal of it answers `NotExist`.
pub proof fn lemma_dead_token_stays_dead_along_trace<V, H>(
    trace: Seq<ServState<V, H>>,
    token: u64,
)
    requires
        trace.len() >= 1,
        trace[0].wf(),
        !trace[0].contains_token(token),
        token < trace[0].next_token(),
        forall|k: int| 0 <= k < trace.len() - 1 ==> #[trigger] registry_step(trace[k], trace[k + 1]),
    ensures
        forall|i: int| 0 <= i < trace.len() ==> !(#[trigger] trace[i]).contains_token(token),
{
    assert forall|i: int| 0 <= i < trace.len() implies !(#[trigger] trace[i]).contains_token(token)
        by {
        lemma_dead_prefix(trace, token, i);
    }
}

/// The dead-handle facts hold at position `i` of the run.
proof fn lemma_dead_prefix<V, H>(trace: Seq<ServState<V, H>>, token: u64, i: int)
    requires
        trace.len() >= 1,
        trace[0].wf(),
        !trace[0].contains_token(token),
        token < trace[0].next_token(),
        forall|k: int| 0 <= k < trace.len() - 1 ==> #[trigger] registry_step(trace[k], trace[k + 1]),
        0 <= i < trace.len(),
    ensures
        trace[i].wf(),
        !trace[i].contains_token(token),
        token < trace[i].next_token(),
    decreases i,
{
    if i > 0 {
        lemma_dead_prefix(trace, token, i - 1);
        let k = i - 1;
        assert(registry_step(trace[k], trace[k + 1]));
        lemma_dead_token_stays_dead(trace[i - 1], trace[i], token);
    }
}

/// Appending a record moves the count of its own class up by one and no
/// other count.
proof fn lemma_count_push<V, H>(
    s: Seq<(u64, WorkerProp<V, H>)>,
    e: (u64, WorkerProp<V, H>),
    name: Seq<char>,
    i: int,
)
    requires
        0 <= i <= s.len(),
    ensures
        count_matching(s.push(e), name, i) == count_matching(s, name, i) + (
        if e.1.name_spec() == name {
            1nat
        } else {
            0nat
        }),
    decreases s.len() - i,
{
    if i == s.len() {
        assert(s.push(e)[i] == e);
        assert(count_matching(s.push(e), name, i + 1) == 0);
    } else {
        assert(s.push(e)[i] == s[i]);
        lemma_count_push(s, e, name, i + 1);
    }
}

/// From any position at or past the deleted one, counting the shortened
/// records is counting the full ones one position further on.
proof fn lemma_count_remove_above<V, H>(
    s: Seq<(u64, WorkerProp<V, H>)>,
    k: int,
    name: Seq<char>,
    j: int,
)
    requires
        0 <= k < s.len(),
        k <= j <= s.len() - 1,
    ensures
        count_matching(s.remove(k), name, j) == count_matching(s, name, j + 1),
    decreases s.len() - j,
{
    s.remove_ensures(k);
    if j < s.len() - 1 {
        assert(s.remove(k)[j] == s[j + 1]);
        lemma_count_remove_above(s, k, name, j + 1);
    }
}

/// From any position before the deleted one, deleting the record at `k`
/// lowers the count by exactly that record's own contribution.
proof fn lemma_count_remove_below<V, H>(
    s: Seq<(u64, WorkerProp<V, H>)>,
    k: int,
    name: Seq<char>,
    j: int,
)
    requires
        0 <= j <= k < s.len(),
    ensures
        count_matching(s.remove(k), name, j) + (
        if s[k].1.name_spec() == name {
            1nat
        } else {
            0nat
        }) == count_matching(s, name, j),
    decreases k - j,
{
    s.remove_ensures(k);
    if j == k {
        if k <= s.len() - 1 {
            lemma_count_remove_above(s, k, name, j);
        }
    } else {
        assert(s.remove(k)[j] == s[j]);
        lemma_count_remove_below(s, k, name, j + 1);
    }
}

/// Count accuracy under enqueue: registering a record of some class moves
/// that class's count up by exactly one and every other class's count not at
/// all.
pub proof fn lemma_enqueue_increments_count<V, H>(
    pre: ServState<V, H>,
    post: ServState<V, H>,
    prop: WorkerProp<V, H>,
    r: PollingState<V>,
    name: Seq<char>,
)
    requires
        enqueue_effect(pre, post, prop, r),
    ensures
        post.job_count(name) == pre.job_count(name) + (
        if prop.name_spec() == name {
            1nat
        } else {
            0nat
        }),
{
    lemma_count_push(pre.entries(), (pre.next_token(), prop), name, 0);
}

/// Count accuracy under deletion: consuming or removing the record under
/// `token` moves its own class's count down by exactly one and every other
/// class's count not at all.
proof fn lemma_consumed_decrements_count<V, H>(
    pre: ServState<V, H>,
    post: ServState<V, H>,
    token: u64,
    name: Seq<char>,
)
    requires
        pre.wf(),
        pre.contains_token(token),
        post.entries() == pre.entries().remove(pre.index_of(token)),
    ensures
        post.job_count(name) + (
        if pre.entries()[pre.index_of(token)].1.name_spec() == name {
            1nat
        } else {
            0nat
        }) == pre.job_count(name),
{
    let idx = pre.index_of(token);
    assert(0 <= idx < pre.entries().len() && pre.entries()[idx].0 == token);
    lemma_count_remove_below(pre.entries(), idx, name, 0);
}

/// Count accuracy under a `Done`-consuming poll.
pub proof fn lemma_poll_done_decrements_count<V, H>(
    pre: ServState<V, H>,
    post: ServState<V, H>,
    token: u64,
    v: V,
    name: Seq<char>,
)
    requires
        pre.wf(),
        poll_effect(pre, post, token, PollingState::Done(v)),
    ensures
        pre.contains_token(token),
        post.job_count(name) + (
        if pre.entries()[pre.index_of(token)].1.name_spec() == name {
            1nat
        } else {
            0nat
        }) == pre.job_count(name),
{
    assert(pre.contains_token(token));
    lemma_consumed_decrements_count(pre, post, token, name);
}

/// Count accuracy under a successful removal.
pub proof fn lemma_remove_decrements_count<V, H>(
    pre: ServState<V, H>,
    post: ServState<V, H>,
    token: u64,
    cancel: Option<H>,
    name: Seq<char>,
)
    requires
        pre.wf(),
        remove_effect(pre, post, token, PollingState::Removed, cancel),
    ensures
        pre.contains_token(token),
        post.job_count(name) + (
        if pre.entries()[pre.index_of(token)].1.name_spec() == name {
            1nat
        } else {
            0nat
        }) == pre.job_count(name),
{
    assert(pre.contains_token(token));
    lemma_consumed_decrements_count(pre, post, token, name);
}

/// After a poll or removal of some handle `t2`, a handle absent before is
/// still absent: the operation only ever deletes a record.
proof fn lemma_step_keeps_token_absent<V, H>(
    pre: ServState<V, H>,
    post: ServState<V, H>,
    t2: u64,
    token: u64,
)
    requires
        pre.wf(),
        !pre.contains_token(token),
        post == pre || (pre.contains_token(t2) && post.entries() == pre.entries().remove(
            pre.index_of(t2),
        )),
    ensures
        !post.contains_token(token),
{
    if !(post == pre) {
        let idx = pre.index_of(t2);
        assert(0 <= idx < pre.entries().len() && pre.entries()[idx].0 == t2);
        pre.entries().remove_ensures(idx);
        assert forall|k: int| 0 <= k < post.entries().len() implies (#[trigger] post.entries()[k]).0
            != token by {
            let k0 = if k < idx {
                k
            } else {
                k + 1
            };
            assert(post.entries()[k] == pre.entries()[k0]);
            assert(pre.entries()[k0].0 != token);
        }
    }
}

} // verus!
