//! The job registry: a map from issued handle to in-flight job record, with
//! non-blocking status lookup, forced removal, and per-class admission
//! counting.

use crate::allocator::TokenAllocator;
use crate::channel::RecvOutcome;
use crate::channel::try_recv_outcome;
use crate::config::Config;
use crate::config::limit_from;
use crate::config::limit_of;
use crate::config::token_allowed;
use std::sync::mpsc::Receiver;
use vstd::prelude::*;

verus! {

/// Status of a registry operation, as reported to callers.
#[derive(Clone, Debug, PartialEq, Eq)]
pub enum PollingState<V> {
    /// A job was registered under this handle.
    Started(u64),
    /// The job is registered and still running; no value has arrived yet.
    Pending,
    /// The job delivered this value; its record was consumed by this answer.
    Done(V),
    /// The record was deleted on request.
    Removed,
    Error(PollingError),
}

#[derive(Clone, Copy, Debug, PartialEq, Eq)]
pub enum PollingError {
    /// The handle was never issued, already consumed, or already removed.
    NotExist,
    /// The job's channel closed without delivering a value; the record stays
    /// until it is explicitly removed.
    Disconnected,
}

/// One registered job: its class name (used only for admission counting), the
/// exclusively owned handle of its background execution, and the consumer
/// side of its one-shot outcome channel.
#[verifier::reject_recursive_types(V)]
pub struct WorkerProp<V, H> {
    name: String,
    handle: H,
    receiver: Receiver<V>,
}

impl<V, H> WorkerProp<V, H> {
    /// The job's class name.
    pub closed spec fn name_spec(self) -> Seq<char> {
        self.name@
    }

    /// The execution handle stored for forced cancellation.
    pub closed spec fn handle_spec(self) -> H {
        self.handle
    }

    /// The receiving half of the job's outcome channel.
    pub closed spec fn receiver_spec(self) -> Receiver<V> {
        self.receiver
    }

    pub fn new(name: String, handle: H, receiver: Receiver<V>) -> (p: Self)
        ensures
            p.name_spec() == name@,
            p.handle_spec() == handle,
            p.receiver_spec() == receiver,
    {
        Self { name, handle, receiver }
    }
}

/// How many of the records in `s`, from position `i` on, belong to class
/// `name`.
pub open spec fn count_matching<V, H>(
    s: Seq<(u64, WorkerProp<V, H>)>,
    name: Seq<char>,
    i: int,
) -> nat
    decreases s.len() - i,
{
    if 0 <= i < s.len() {
        (if s[i].1.name_spec() == name {
            1nat
        } else {
            0nat
        }) + count_matching(s, name, i + 1)
    } else {
        0
    }
}

/// The registry: job records keyed by handle, the allocator the handles come
/// from, and the admission configuration. It owns every record exclusively;
/// records leave it only through a `Done`-consuming poll or through `remove`.
#[verifier::reject_recursive_types(V)]
pub struct ServState<V, H> {
    workers: Vec<(u64, WorkerProp<V, H>)>,
    alloc: TokenAllocator,
    config: Config,
}

impl<V, H> ServState<V, H> {
    /// The registered records, in insertion order, each under its handle.
    pub closed spec fn entries(self) -> Seq<(u64, WorkerProp<V, H>)> {
        self.workers@
    }

    /// The next handle the registry would issue; every stored handle is
    /// strictly below it.
    pub closed spec fn next_token(self) -> u64 {
        self.alloc.current()
    }

    /// The admission configuration the registry was created with.
    pub closed spec fn config_spec(self) -> Config {
        self.config
    }

    /// Whether a record is currently registered under `token`.
    pub open spec fn contains_token(self, token: u64) -> bool {
        exists|i: int|
            0 <= i < self.entries().len() && (#[trigger] self.entries()[i]).0 == token
    }

    /// The position of the record registered under `token` (meaningful only
    /// when `contains_token` holds; well-formedness makes it unique).
    pub open spec fn index_of(self, token: u64) -> int {
        choose|i: int|
            0 <= i < self.entries().len() && (#[trigger] self.entries()[i]).0 == token
    }

    /// Registry invariant: handles are pairwise distinct, and every stored
    /// handle was issued, that is, lies strictly below the allocator's next
    /// one.
    pub open spec fn wf(self) -> bool {
        &&& forall|i: int, j: int|
            0 <= i < j < self.entries().len() ==> (#[trigger] self.entries()[i]).0 != (
            #[trigger] self.entries()[j]).0
        &&& forall|i: int|
            0 <= i < self.entries().len() ==> (#[trigger] self.entries()[i]).0
                < self.next_token()
    }

    /// The number of currently registered records of class `name`.
    pub open spec fn job_count(self, name: Seq<char>) -> nat {
        count_matching(self.entries(), name, 0)
    }
}

/// What `enqueue` does: it registers `prop` under the next unissued handle,
/// advances the allocator by one, and answers `Started` with that handle.
pub open spec fn enqueue_effect<V, H>(
    pre: ServState<V, H>,
    post: ServState<V, H>,
    prop: WorkerProp<V, H>,
    r: PollingState<V>,
) -> bool {
    &&& r == PollingState::<V>::Started(pre.next_token())
    &&& post.entries() == pre.entries().push((pre.next_token(), prop))
    &&& post.next_token() == pre.next_token() + 1
    &&& post.config_spec() == pre.config_spec()
}

/// What `get` does. An unknown handle answers `NotExist` and changes nothing.
/// A known handle answers according to its channel: a delivered value comes
/// back as `Done` and consumes the record; an empty channel answers `Pending`
/// and a closed one `Disconnected`, both leaving the registry unchanged.
pub open spec fn poll_effect<V, H>(
    pre: ServState<V, H>,
    post: ServState<V, H>,
    token: u64,
    r: PollingState<V>,
) -> bool {
    if pre.contains_token(token) {
        match r {
            PollingState::Done(v) => {
                &&& post.entries() == pre.entries().remove(pre.index_of(token))
                &&& post.next_token() == pre.next_token()
                &&& post.config_spec() == pre.config_spec()
            },
            PollingState::Pending => post == pre,
            PollingState::Error(e) => e == PollingError::Disconnected && post == pre,
            _ => false,
        }
    } else {
        &&& r == PollingState::<V>::Error(PollingError::NotExist)
        &&& post == pre
    }
}

/// What `remove` does. A known handle has its record deleted unconditionally,
/// whatever its status, and the stored execution handle is surrendered for
/// forced cancellation; an unknown handle answers `NotExist` and changes
/// nothing.
pub open spec fn remove_effect<V, H>(
    pre: ServState<V, H>,
    post: ServState<V, H>,
    token: u64,
    r: PollingState<V>,
    cancel: Option<H>,
) -> bool {
    if pre.contains_token(token) {
        &&& r == PollingState::<V>::Removed
        &&& cancel == Some(pre.entries()[pre.index_of(token)].1.handle_spec())
        &&& post.entries() == pre.entries().remove(pre.index_of(token))
        &&& post.next_token() == pre.next_token()
        &&& post.config_spec() == pre.config_spec()
    } else {
        &&& r == PollingState::<V>::Error(PollingError::NotExist)
        &&& cancel == None::<H>
        &&& post == pre
    }
}

impl<V, H> ServState<V, H> {
    /// A fresh registry: no records, handles starting at zero. Exactly one
    /// registry is meant to exist per process; the caller creates it once at
    /// startup and shares it, so handle uniqueness is owned by this value.
    pub fn new(config: Config) -> (s: Self)
        ensures
            s.wf(),
            s.entries() == Seq::<(u64, WorkerProp<V, H>)>::empty(),
            s.next_token() == 0,
            s.config_spec() == config,
    {
        ServState { workers: Vec::new(), alloc: TokenAllocator::new(), config }
    }

    /// The position of `token`'s record, if one is registered.
    fn find_index(&self, token: u64) -> (r: Option<usize>)
        ensures
            match r {
                Some(i) => i < self.entries().len() && self.entries()[i as int].0 == token,
                None => !self.contains_token(token),
            },
    {
        let mut i: usize = 0;
        while i < self.workers.len()
            invariant
                i <= self.workers.len(),
                forall|j: int| 0 <= j < i ==> (#[trigger] self.entries()[j]).0 != token,
            decreases self.workers.len() - i,
        {
            if self.workers[i].0 == token {
                return Some(i);
            }
            i = i + 1;
        }
        None
    }

    /// The bound below which every issued handle lies: a caller that wants to
    /// be sure `enqueue` may run checks this against `u64::MAX` first.
    pub fn issued_bound(&self) -> (b: u64)
        ensures
            b == self.next_token(),
    {
        self.alloc.bound()
    }

    /// Registers a job and returns `Started` with its fresh handle. This
    /// never fails and performs no admission check: admission is a separate,
    /// advisory concern, so a caller that wants the limit respected asks
    /// `job_available` first.
    pub fn enqueue(&mut self, prop: WorkerProp<V, H>) -> (r: PollingState<V>)
        requires
            old(self).wf(),
            old(self).next_token() < u64::MAX,
        ensures
            final(self).wf(),
            enqueue_effect(*old(self), *final(self), prop, r),
    {
        let token = self.alloc.next_token();
        self.workers.push((token, prop));
        proof {
            assert forall|i: int, j: int|
                0 <= i < j < self.entries().len() implies (#[trigger] self.entries()[i]).0 != (
            #[trigger] self.entries()[j]).0 by {
                assert(self.entries()[i] == old(self).entries()[i]);
            }
        }
        PollingState::Started(token)
    }

    /// Non-blocking status lookup, the `poll` of the design: answers
    /// `NotExist` for an unknown handle; otherwise one look at the outcome
    /// channel decides among `Done` (which consumes the record), `Pending`
    /// and `Disconnected`. The caller is never suspended waiting for the
    /// computation.
    pub fn get(&mut self, token: u64) -> (r: PollingState<V>)
        requires
            old(self).wf(),
        ensures
            final(self).wf(),
            poll_effect(*old(self), *final(self), token, r),
    {
        match self.find_index(token) {
            None => PollingState::Error(PollingError::NotExist),
            Some(i) => {
                let outcome = try_recv_outcome(&self.workers[i].1.receiver);
                proof {
                    lemma_token_at_index(*self, token, i as int);
                }
                self.settle(token, outcome)
            },
        }
    }

    /// The registry's decision on one observed channel outcome for a
    /// registered handle: a delivered value is answered as `Done` and its
    /// record is consumed at that moment; an empty channel leaves the record
    /// untouched and answers `Pending`; a closed channel leaves the record in
    /// place and answers `Disconnected`, so repeated polls repeat that
    /// answer until the record is removed explicitly.
    pub fn settle(&mut self, token: u64, outcome: RecvOutcome<V>) -> (r: PollingState<V>)
        requires
            old(self).wf(),
            old(self).contains_token(token),
        ensures
            final(self).wf(),
            poll_effect(*old(self), *final(self), token, r),
            r == match outcome {
                RecvOutcome::Value(v) => PollingState::<V>::Done(v),
                RecvOutcome::Empty => PollingState::<V>::Pending,
                RecvOutcome::Disconnected => PollingState::<V>::Error(PollingError::Disconnected),
            },
    {
        match outcome {
            RecvOutcome::Value(v) => {
                let i = match self.find_index(token) {
                    Some(i) => i,
                    None => {
                        proof {
                            assert(false);
                        }
                        0
                    },
                };
                proof {
                    lemma_token_at_index(*self, token, i as int);
                    old(self).entries().remove_ensures(i as int);
                    lemma_remove_keeps_wf(*old(self), i as int);
                }
                self.workers.remove(i);
                PollingState::Done(v)
            },
            RecvOutcome::Empty => PollingState::Pending,
            RecvOutcome::Disconnected => PollingState::Error(PollingError::Disconnected),
        }
    }

    /// Deletes `token`'s record regardless of its status and surrenders the
    /// stored execution handle so that the caller can signal forced
    /// termination to the background computation; answers `NotExist` when no
    /// record is registered under `token`. The termination signal is issued
    /// by the caller, asynchronously and unconfirmed: the job may be stopped
    /// at an arbitrary point, with no cleanup guaranteed.
    pub fn remove(&mut self, token: u64) -> (r: (PollingState<V>, Option<H>))
        requires
            old(self).wf(),
        ensures
            final(self).wf(),
            remove_effect(*old(self), *final(self), token, r.0, r.1),
    {
        match self.find_index(token) {
            None => (PollingState::Error(PollingError::NotExist), None),
            Some(i) => {
                proof {
                    lemma_token_at_index(*self, token, i as int);
                    old(self).entries().remove_ensures(i as int);
                    lemma_remove_keeps_wf(*old(self), i as int);
                }
                let (_, prop) = self.workers.remove(i);
                (PollingState::Removed, Some(prop.handle))
            },
        }
    }
}

impl<V, H> ServState<V, H> {
    /// How many currently registered records belong to class `name`. Exact:
    /// every record of the class is counted once, nothing else is counted.
    pub fn job_num(&self, name: &String) -> (n: u64)
        ensures
            n == self.job_count(name@),
    {
        let mut n: u64 = 0;
        let mut i: usize = 0;
        while i < self.workers.len()
            invariant
                i <= self.workers.len(),
                n <= i,
                self.job_count(name@) == n + count_matching(self.entries(), name@, i as int),
            decreases self.workers.len() - i,
        {
            if self.workers[i].1.name == *name {
                n = n + 1;
            }
            i = i + 1;
        }
        n
    }

    /// The configured concurrency limit for class `name`; a class absent from
    /// the configuration is unlimited, reported as `u64::MAX`.
    pub fn job_limit(&self, name: &String) -> (r: u64)
        ensures
            r == limit_of(self.config_spec().job_limits@, name@),
    {
        let limits = &self.config.job_limits;
        let mut i: usize = 0;
        while i < limits.len()
            invariant
                i <= limits.len(),
                limit_of(self.config_spec().job_limits@, name@) == limit_from(
                    limits@,
                    name@,
                    i as int,
                ),
                limits == self.config.job_limits,
            decreases limits.len() - i,
        {
            if limits[i].0 == *name {
                return limits[i].1;
            }
            i = i + 1;
        }
        u64::MAX
    }

    /// Advisory admission answer: whether a new job of class `name` is under
    /// the configured limit right now. It reserves nothing: the check and a
    /// later `enqueue` are separate operations, so concurrent callers can
    /// both see room and both enqueue past the limit.
    pub fn job_available(&self, name: &String) -> (r: bool)
        ensures
            r == (self.job_count(name@) < limit_of(self.config_spec().job_limits@, name@)),
    {
        let num = self.job_num(name);
        let limit = self.job_limit(name);
        num < limit
    }

    /// Whether `token` is one of the configured authorization tokens.
    pub fn verify_token(&self, token: &String) -> (r: bool)
        ensures
            r == token_allowed(self.config_spec().allow_tokens@, token@),
    {
        let tokens = &self.config.allow_tokens;
        let mut i: usize = 0;
        while i < tokens.len()
            invariant
                i <= tokens.len(),
                forall|j: int| 0 <= j < i ==> (#[trigger] tokens@[j])@ != token@,
                tokens == self.config.allow_tokens,
            decreases tokens.len() - i,
        {
            if tokens[i] == *token {
                return true;
            }
            i = i + 1;
        }
        false
    }
}

/// A handle found at a position is registered, and well-formedness makes that
/// position the unique one `index_of` denotes.
pub(crate) proof fn lemma_token_at_index<V, H>(s: ServState<V, H>, token: u64, i: int)
    requires
        s.wf(),
        0 <= i < s.entries().len(),
        s.entries()[i].0 == token,
    ensures
        s.contains_token(token),
        s.index_of(token) == i,
{
    assert(s.contains_token(token));
    let j = s.index_of(token);
    if i < j {
        assert(s.entries()[i].0 != s.entries()[j].0);
    } else if j < i {
        assert(s.entries()[j].0 != s.entries()[i].0);
    }
}

/// Deleting one record keeps handles pairwise distinct and below the
/// allocator's next handle.
pub(crate) proof fn lemma_remove_keeps_wf<V, H>(pre: ServState<V, H>, i: int)
    requires
        pre.wf(),
        0 <= i < pre.entries().len(),
    ensures
        forall|k: int, l: int|
            0 <= k < l < pre.entries().remove(i).len() ==> (#[trigger] pre.entries().remove(
                i,
            )[k]).0 != (#[trigger] pre.entries().remove(i)[l]).0,
        forall|k: int|
            0 <= k < pre.entries().remove(i).len() ==> (#[trigger] pre.entries().remove(i)[k]).0
                < pre.next_token(),
{
    pre.entries().remove_ensures(i);
    let post = pre.entries().remove(i);
    assert forall|k: int, l: int| 0 <= k < l < post.len() implies (#[trigger] post[k]).0 != (
    #[trigger] post[l]).0 by {
        let k0 = if k < i {
            k
        } else {
            k + 1
        };
        let l0 = if l < i {
            l
        } else {
            l + 1
        };
        assert(post[k] == pre.entries()[k0]);
        assert(post[l] == pre.entries()[l0]);
        assert(pre.entries()[k0].0 != pre.entries()[l0].0);
    }
    assert forall|k: int| 0 <= k < post.len() implies (#[trigger] post[k]).0 < pre.next_token() by {
        let k0 = if k < i {
            k
        } else {
            k + 1
        };
        assert(post[k] == pre.entries()[k0]);
    }
}

} // verus!
