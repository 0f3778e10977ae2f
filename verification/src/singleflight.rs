//! Single-flight coordination for the outbound credential fetch.
//!
//! Decoding several encrypted files concurrently must cost one network round
//! trip per distinct request, not one per file. The registry records which
//! requests are in flight and which have completed: the first caller to ask
//! for a key leads and performs the fetch, everyone else waits for it or is
//! handed the completed answer. The caller serializes access to the registry
//! and performs the fetch itself; the registry is the decision core.

use vstd::prelude::*;
use vstd::slice::slice_to_vec;

verus! {

/// What a caller who announced a request must do.
pub enum BeginAction {
    /// Nobody is fetching this request: the caller leads and fetches.
    Lead,
    /// A fetch for this request is in flight: wait for its outcome.
    Wait,
    /// The request already completed: here is the shared key material.
    Done(Vec<u8>),
}

/// Whether a key occurs in a sequence.
pub open spec fn seq_has(s: Seq<u64>, k: u64) -> bool {
    exists|i: int| 0 <= i < s.len() && s[i] == k
}

/// Registry of in-flight and completed credential requests, keyed by request
/// identity.
pub struct SingleFlight {
    /// Requests a leader is currently fetching.
    pub pending: Vec<u64>,
    /// Completed requests and their key material.
    pub done_keys: Vec<u64>,
    pub done_vals: Vec<Vec<u8>>,
}

impl SingleFlight {
    /// One completed answer per completed request.
    pub open spec fn wf(self) -> bool {
        self.done_keys@.len() == self.done_vals@.len()
    }

    /// Whether a fresh request for `k` would lead.
    pub open spec fn spec_would_lead(self, k: u64) -> bool {
        !seq_has(self.pending@, k) && !seq_has(self.done_keys@, k)
    }

    /// An empty registry: every first request leads.
    pub fn new() -> (r: SingleFlight)
        ensures
            r.wf(),
            r.pending@.len() == 0,
            r.done_keys@.len() == 0,
    {
        SingleFlight { pending: Vec::new(), done_keys: Vec::new(), done_vals: Vec::new() }
    }

    /// Find a key in a vector.
    fn find(v: &Vec<u64>, k: u64) -> (r: Option<usize>)
        ensures
            match r {
                Some(i) => i < v@.len() && v@[i as int] == k,
                None => !seq_has(v@, k),
            },
    {
        let n = v.len();
        let mut i: usize = 0;
        while i < n
            invariant
                0 <= i <= n,
                n == v@.len(),
                forall|j: int| 0 <= j < i ==> v@[j] != k,
            decreases n - i,
        {
            if v[i] == k {
                return Some(i);
            }
            i = i + 1;
        }
        None
    }

    /// Announce a request. The first caller for a key leads; callers during
    /// the fetch wait; callers after completion get the stored answer. Only a
    /// leading caller changes the registry, by marking the request pending.
    pub fn begin(&mut self, k: u64) -> (a: BeginAction)
        requires
            old(self).wf(),
        ensures
            final(self).wf(),
            final(self).done_keys@ == old(self).done_keys@,
            final(self).done_vals@ == old(self).done_vals@,
            match a {
                BeginAction::Lead => {
                    &&& old(self).spec_would_lead(k)
                    &&& final(self).pending@ == old(self).pending@.push(k)
                },
                BeginAction::Wait => {
                    &&& seq_has(old(self).pending@, k)
                    &&& !seq_has(old(self).done_keys@, k)
                    &&& *final(self) == *old(self)
                },
                BeginAction::Done(v) => {
                    &&& *final(self) == *old(self)
                    &&& exists|i: int|
                        0 <= i < old(self).done_keys@.len() && old(self).done_keys@[i] == k && v@
                            == old(self).done_vals@[i]@
                },
            },
    {
        match Self::find(&self.done_keys, k) {
            Some(i) => {
                let v = slice_to_vec(self.done_vals[i].as_slice());
                BeginAction::Done(v)
            },
            None => {
                match Self::find(&self.pending, k) {
                    Some(_) => BeginAction::Wait,
                    None => {
                        self.pending.push(k);
                        BeginAction::Lead
                    },
                }
            },
        }
    }

    /// Record a fetch's successful outcome: the request stops being pending
    /// and its key material is shared with present and future waiters.
    pub fn complete(&mut self, k: u64, material: Vec<u8>)
        requires
            old(self).wf(),
        ensures
            final(self).wf(),
            final(self).done_keys@ == old(self).done_keys@.push(k),
            final(self).done_vals@ == old(self).done_vals@.push(material),
            !seq_has(old(self).pending@, k) ==> final(self).pending@ == old(self).pending@,
            forall|j: int|
                0 <= j < final(self).pending@.len() ==> seq_has(
                    old(self).pending@,
                    #[trigger] (final(self).pending@[j]),
                ),
    {
        self.done_keys.push(k);
        self.done_vals.push(material);
        self.remove_pending(k);
    }

    /// Record a fetch's failure: the request stops being pending, so a later
    /// caller may lead a fresh attempt. Failures are not cached — retry
    /// policy belongs to the caller.
    pub fn fail(&mut self, k: u64)
        requires
            old(self).wf(),
        ensures
            final(self).wf(),
            final(self).done_keys@ == old(self).done_keys@,
            final(self).done_vals@ == old(self).done_vals@,
            !seq_has(old(self).pending@, k) ==> final(self).pending@ == old(self).pending@,
            forall|j: int|
                0 <= j < final(self).pending@.len() ==> seq_has(
                    old(self).pending@,
                    #[trigger] (final(self).pending@[j]),
                ),
    {
        self.remove_pending(k);
    }

    /// Drop the first pending occurrence of a key.
    fn remove_pending(&mut self, k: u64)
        requires
            old(self).wf(),
        ensures
            final(self).wf(),
            final(self).done_keys@ == old(self).done_keys@,
            final(self).done_vals@ == old(self).done_vals@,
            !seq_has(old(self).pending@, k) ==> final(self).pending@ == old(self).pending@,
            forall|j: int|
                0 <= j < final(self).pending@.len() ==> seq_has(
                    old(self).pending@,
                    #[trigger] (final(self).pending@[j]),
                ),
    {
        match Self::find(&self.pending, k) {
            Some(i) => {
                self.pending.remove(i);
                proof {
                    assert forall|j: int|
                        0 <= j < final(self).pending@.len() implies seq_has(
                        old(self).pending@,
                        final(self).pending@[j],
                    ) by {
                        if j < i {
                            assert(final(self).pending@[j] == old(self).pending@[j]);
                        } else {
                            assert(final(self).pending@[j] == old(self).pending@[j + 1]);
                        }
                    }
                }
            },
            None => {},
        }
    }
}

/// The single-flight law: once a caller has led a request and until its
/// fetch completes or fails, no further caller for the same request leads —
/// concurrent imports needing one credential cost one round trip.
pub proof fn lemma_one_leader(before: SingleFlight, after: SingleFlight, k: u64)
    requires
        // a caller led the request `k`
        before.spec_would_lead(k),
        after.pending@ == before.pending@.push(k),
        after.done_keys@ == before.done_keys@,
    ensures
        // the registry now refuses to hand out a second lead for `k`
        !after.spec_would_lead(k),
{
    assert(after.pending@[after.pending@.len() - 1] == k);
}

} // verus!
