//! The hot-reload build supervisor: it decides when the scene source must
//! be rebuilt, and hands each finished artifact to the consumer through a
//! single-slot, latest-wins mailbox that a non-blocking `poll` drains.

use vstd::prelude::*;
use crate::sdf::Sdf;

verus! {

/// A successfully built scene program: the evaluable scene description,
/// stamped with the source timestamp it was built from.
pub struct Artifact {
    pub stamp: u64,
    pub scene: Sdf,
}

/// The supervisor's state: the last observed source timestamp, and the
/// handoff slot holding at most the latest unconsumed artifact.
pub struct Compiler {
    last_seen: Option<u64>,
    slot: Option<Artifact>,
}

impl Compiler {
    /// The last source timestamp the background loop has observed.
    pub closed spec fn last_seen_spec(self) -> Option<u64> {
        self.last_seen
    }

    /// The artifact waiting in the handoff slot, if any.
    pub closed spec fn slot_spec(self) -> Option<Artifact> {
        self.slot
    }

    /// A fresh supervisor: nothing observed, nothing pending, so the very
    /// first observation always triggers a build.
    pub fn new() -> (c: Compiler)
        ensures
            c.last_seen_spec() == Option::<u64>::None,
            c.slot_spec() == Option::<Artifact>::None,
    {
        Compiler { last_seen: None, slot: None }
    }

    /// Decide whether the source timestamp calls for a rebuild: it does
    /// exactly when it differs from the last observed one, including the
    /// very first observation.
    pub fn observe(&self, mtime: u64) -> (build: bool)
        ensures
            build == (self.last_seen_spec() != Option::Some(mtime)),
    {
        match &self.last_seen {
            Option::Some(prev) => *prev != mtime,
            Option::None => true,
        }
    }

    /// Record the outcome of a build attempt. The timestamp becomes
    /// observed either way, so a broken edit is not retried until the
    /// source changes again; a successful build's artifact overwrites any
    /// unconsumed one (latest wins), a failure publishes nothing.
    pub fn finish_build(&mut self, mtime: u64, built: Option<Artifact>)
        ensures
            final (self).last_seen_spec() == Option::Some(mtime),
            final (self).slot_spec() == (match built {
                Option::Some(a) => Option::Some(a),
                Option::None => old(self).slot_spec(),
            }),
    {
        if let Option::Some(artifact) = built {
            self.slot = Option::Some(artifact);
        }
        self.last_seen = Option::Some(mtime);
    }

    /// Non-blocking poll: take whatever the slot holds. Returns each
    /// published artifact at most once, and `None` whenever no build has
    /// finished since the last call.
    pub fn poll(&mut self) -> (a: Option<Artifact>)
        ensures
            a == old(self).slot_spec(),
            final (self).slot_spec() == Option::<Artifact>::None,
            final (self).last_seen_spec() == old(self).last_seen_spec(),
    {
        self.slot.take()
    }
}

/// One round of the background loop against one consumer poll: observe
/// the source timestamp, run a build if it calls for one (`build` is what
/// that build would yield, `None` on failure), and drain the slot.
/// Delivers an artifact exactly when the timestamp was fresh and the
/// build succeeded.
pub fn supervisor_round(c: &mut Compiler, mtime: u64, build: Option<Artifact>) -> (delivered: Option<
    Artifact,
>)
    requires
        old(c).slot_spec() == Option::<Artifact>::None,
    ensures
        final (c).slot_spec() == Option::<Artifact>::None,
        final (c).last_seen_spec() == Option::Some(mtime),
        delivered == (if old(c).last_seen_spec() != Option::Some(mtime) {
            build
        } else {
            Option::<Artifact>::None
        }),
{
    let rebuild: bool = c.observe(mtime);
    if rebuild {
        c.finish_build(mtime, build);
    }
    c.poll()
}

/// The timestamp the background loop has observed after `k` rounds over
/// the source timestamps `ts`.
pub open spec fn last_after(ts: Seq<u64>, k: int) -> Option<u64>
    decreases k,
{
    if k <= 0 {
        Option::<u64>::None
    } else {
        let prev = last_after(ts, k - 1);
        if prev != Option::Some(ts[k - 1]) {
            Option::Some(ts[k - 1])
        } else {
            prev
        }
    }
}

/// The stamp the `k`-th poll returns when the consumer polls after every
/// round: the round's timestamp where it was fresh and the build
/// succeeded, nothing otherwise.
pub open spec fn poll_after(ts: Seq<u64>, ok: Seq<bool>, k: int) -> Option<u64> {
    if last_after(ts, k) != Option::Some(ts[k]) && ok[k] {
        Option::Some(ts[k])
    } else {
        Option::<u64>::None
    }
}

/// After `k` rounds the observed timestamp is the last one seen.
pub proof fn lemma_last_after(ts: Seq<u64>, k: int)
    requires
        0 <= k <= ts.len(),
    ensures
        last_after(ts, k) == if k == 0 {
            Option::<u64>::None
        } else {
            Option::Some(ts[k - 1])
        },
    decreases k,
{
    if k > 0 {
        lemma_last_after(ts, k - 1);
    }
}

/// Given source timestamps `ts`, with the build at round `k` succeeding
/// iff `ok[k]`, and the consumer polling after every round: the `k`-th
/// poll returns an artifact exactly when the timestamp changed (the first
/// round counts as a change) and the build succeeded - and what it
/// returns is that round's build, never an older one.
pub proof fn lemma_poll_exactly_on_fresh_success(ts: Seq<u64>, ok: Seq<bool>, k: int)
    requires
        0 <= k < ts.len(),
    ensures
        poll_after(ts, ok, k) is Some <==> ((k == 0 || ts[k] != ts[k - 1]) && ok[k]),
        poll_after(ts, ok, k) is Some ==> poll_after(ts, ok, k) == Option::Some(ts[k]),
{
    lemma_last_after(ts, k);
}

} // verus!
