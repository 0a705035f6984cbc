//! The per-slot task-execution engine.
//!
//! Every slot the control loop hands the engine the newly due threads and the
//! outcomes of outside work (status queries, transaction builds, the batch
//! send), and the engine decides: it admits and prunes due threads, requeues
//! or abandons in-flight submissions, gates pool-rotation attempts, computes
//! the eligible set, rejects duplicate candidates, and moves submitted
//! threads into the in-flight store. All network work stays with the caller.

use vstd::prelude::*;
use crate::backoff::window_elapsed;
use crate::history_store::{spec_is_checkable, HistoryStore};
use crate::thread_store::{spec_is_eligible, spec_pruned, ThreadStore};
use crate::types::{
    BuildOutcome, CheckableTransaction, ExecutableThreadMetadata, ExecutorError, PluginConfig,
    PoolPosition,
    SignatureStatus, TransactionMetadata,
};

verus! {

/// The due-thread map after admitting a slot's newly due threads: threads
/// already tracked — due or in flight — are left untouched, new ones enter
/// with the current slot as due slot and no failures.
pub open spec fn spec_admitted(
    th: Map<u64, ExecutableThreadMetadata>,
    hi: Map<u64, TransactionMetadata>,
    due: Seq<u64>,
    slot: u64,
) -> Map<u64, ExecutableThreadMetadata> {
    Map::new(
        |k: u64| th.contains_key(k) || (due.contains(k) && !hi.contains_key(k)),
        |k: u64|
            if th.contains_key(k) {
                th[k]
            } else {
                ExecutableThreadMetadata { due_slot: slot, simulation_failures: 0 }
            },
    )
}

/// One reconciliation decision: a reported status applies only while the
/// thread's submission is still tracked and old enough to check. Success and
/// failure abandon the submission; a missing signature requeues the thread
/// with its original due slot and a fresh failure count.
pub open spec fn spec_retry_step(
    th: Map<u64, ExecutableThreadMetadata>,
    hi: Map<u64, TransactionMetadata>,
    k: u64,
    st: SignatureStatus,
    slot: u64,
    period: u64,
) -> (Map<u64, ExecutableThreadMetadata>, Map<u64, TransactionMetadata>) {
    if hi.contains_key(k) && spec_is_checkable(hi[k], slot, period) {
        if st is Missing {
            (
                th.insert(
                    k,
                    ExecutableThreadMetadata { due_slot: hi[k].due_slot, simulation_failures: 0 },
                ),
                hi.remove(k),
            )
        } else {
            (th, hi.remove(k))
        }
    } else {
        (th, hi)
    }
}

/// The stores after applying a sequence of reported statuses in order.
pub open spec fn spec_retries(
    th: Map<u64, ExecutableThreadMetadata>,
    hi: Map<u64, TransactionMetadata>,
    statuses: Seq<(u64, SignatureStatus)>,
    slot: u64,
    period: u64,
) -> (Map<u64, ExecutableThreadMetadata>, Map<u64, TransactionMetadata>)
    decreases statuses.len(),
{
    if statuses.len() == 0 {
        (th, hi)
    } else {
        let p = spec_retries(th, hi, statuses.drop_last(), slot, period);
        spec_retry_step(p.0, p.1, statuses.last().0, statuses.last().1, slot, period)
    }
}

/// What a reconciliation pass can and cannot do: due threads are never
/// touched, a thread that appears in the due store was requeued from a
/// checkable submission with its due slot preserved and its failure count
/// reset, submissions are never altered (only removed), submissions whose
/// confirmation period has not passed stay untouched, and the stores stay
/// disjoint.
pub proof fn lemma_retries_props(
    th: Map<u64, ExecutableThreadMetadata>,
    hi: Map<u64, TransactionMetadata>,
    statuses: Seq<(u64, SignatureStatus)>,
    slot: u64,
    period: u64,
)
    requires
        forall|k: u64| #![trigger th.dom().contains(k)]
            th.dom().contains(k) ==> !hi.dom().contains(k),
    ensures
        forall|k: u64| #![trigger th.dom().contains(k)]
            th.dom().contains(k) ==> spec_retries(th, hi, statuses, slot, period).0.dom().contains(
                k,
            ) && spec_retries(th, hi, statuses, slot, period).0[k] == th[k],
        forall|k: u64| #![trigger spec_retries(th, hi, statuses, slot, period).0.dom().contains(k)]
            spec_retries(th, hi, statuses, slot, period).0.dom().contains(k) && !th.dom().contains(
                k,
            ) ==> {
                &&& hi.dom().contains(k)
                &&& spec_is_checkable(hi[k], slot, period)
                &&& spec_retries(th, hi, statuses, slot, period).0[k]
                    == ExecutableThreadMetadata {
                        due_slot: hi[k].due_slot,
                        simulation_failures: 0,
                    }
            },
        forall|k: u64| #![trigger spec_retries(th, hi, statuses, slot, period).1.dom().contains(k)]
            spec_retries(th, hi, statuses, slot, period).1.dom().contains(k) ==> hi.dom().contains(
                k,
            ) && spec_retries(th, hi, statuses, slot, period).1[k] == hi[k],
        forall|k: u64| #![trigger hi.dom().contains(k)]
            hi.dom().contains(k) && !spec_is_checkable(hi[k], slot, period) ==> spec_retries(
                th,
                hi,
                statuses,
                slot,
                period,
            ).1.dom().contains(k) && spec_retries(th, hi, statuses, slot, period).1[k] == hi[k],
        forall|k: u64| #![trigger spec_retries(th, hi, statuses, slot, period).0.dom().contains(k)]
            spec_retries(th, hi, statuses, slot, period).0.dom().contains(k) ==> !spec_retries(
                th,
                hi,
                statuses,
                slot,
                period,
            ).1.dom().contains(k),
    decreases statuses.len(),
{
    if statuses.len() > 0 {
        let rest = statuses.drop_last();
        lemma_retries_props(th, hi, rest, slot, period);
        let p = spec_retries(th, hi, rest, slot, period);
        let kk = statuses.last().0;
        let st = statuses.last().1;
        let r = spec_retries(th, hi, statuses, slot, period);
        assert(r == spec_retry_step(p.0, p.1, kk, st, slot, period));
        if p.1.dom().contains(kk) && spec_is_checkable(p.1[kk], slot, period) {
            assert(hi.dom().contains(kk) && p.1[kk] == hi[kk]);
            assert(!th.dom().contains(kk));
            if st is Missing {
                assert forall|k: u64| #[trigger] th.dom().contains(k) implies r.0.dom().contains(
                    k,
                ) && r.0[k] == th[k] by {
                    assert(k != kk);
                }
            }
        }
    }
}

/// One batch-commit decision: a submitted candidate moves its thread from
/// the due store to the in-flight store, stamped with the send slot and
/// keeping the thread's tracked due slot; a thread no longer due — resolved
/// while its build was in flight — is skipped.
pub open spec fn spec_commit_step(
    th: Map<u64, ExecutableThreadMetadata>,
    hi: Map<u64, TransactionMetadata>,
    k: u64,
    signature: u64,
    slot: u64,
) -> (Map<u64, ExecutableThreadMetadata>, Map<u64, TransactionMetadata>) {
    if th.contains_key(k) {
        (
            th.remove(k),
            hi.insert(
                k,
                TransactionMetadata { due_slot: th[k].due_slot, sent_slot: slot, signature },
            ),
        )
    } else {
        (th, hi)
    }
}

/// The stores after committing a submitted batch in order.
pub open spec fn spec_commit(
    th: Map<u64, ExecutableThreadMetadata>,
    hi: Map<u64, TransactionMetadata>,
    batch: Seq<(u64, u64)>,
    slot: u64,
) -> (Map<u64, ExecutableThreadMetadata>, Map<u64, TransactionMetadata>)
    decreases batch.len(),
{
    if batch.len() == 0 {
        (th, hi)
    } else {
        let p = spec_commit(th, hi, batch.drop_last(), slot);
        spec_commit_step(p.0, p.1, batch.last().0, batch.last().1, slot)
    }
}

/// What committing a batch can and cannot do: surviving due threads keep
/// their metadata, tracked submissions are never altered, every new
/// submission stems from a due thread whose due slot it preserves and is
/// stamped with the send slot, and the stores stay disjoint.
pub proof fn lemma_commit_props(
    th: Map<u64, ExecutableThreadMetadata>,
    hi: Map<u64, TransactionMetadata>,
    batch: Seq<(u64, u64)>,
    slot: u64,
)
    requires
        forall|k: u64| #![trigger th.dom().contains(k)]
            th.dom().contains(k) ==> !hi.dom().contains(k),
    ensures
        forall|k: u64| #![trigger spec_commit(th, hi, batch, slot).0.dom().contains(k)]
            spec_commit(th, hi, batch, slot).0.dom().contains(k) ==> th.dom().contains(k)
                && spec_commit(th, hi, batch, slot).0[k] == th[k],
        forall|k: u64| #![trigger hi.dom().contains(k)]
            hi.dom().contains(k) ==> spec_commit(th, hi, batch, slot).1.dom().contains(k)
                && spec_commit(th, hi, batch, slot).1[k] == hi[k],
        forall|k: u64| #![trigger spec_commit(th, hi, batch, slot).1.dom().contains(k)]
            spec_commit(th, hi, batch, slot).1.dom().contains(k) && !hi.dom().contains(k) ==> {
                &&& th.dom().contains(k)
                &&& spec_commit(th, hi, batch, slot).1[k].due_slot == th[k].due_slot
                &&& spec_commit(th, hi, batch, slot).1[k].sent_slot == slot
            },
        forall|k: u64| #![trigger spec_commit(th, hi, batch, slot).0.dom().contains(k)]
            spec_commit(th, hi, batch, slot).0.dom().contains(k) ==> !spec_commit(
                th,
                hi,
                batch,
                slot,
            ).1.dom().contains(k),
    decreases batch.len(),
{
    if batch.len() > 0 {
        let rest = batch.drop_last();
        lemma_commit_props(th, hi, rest, slot);
        let p = spec_commit(th, hi, rest, slot);
        let kk = batch.last().0;
        let r = spec_commit(th, hi, batch, slot);
        assert(r == spec_commit_step(p.0, p.1, kk, batch.last().1, slot));
        if p.0.dom().contains(kk) {
            assert(th.dom().contains(kk) && p.0[kk] == th[kk]);
            assert(!hi.dom().contains(kk));
            assert(!p.1.dom().contains(kk));
        }
    }
}

/// A build failure bumps the failure count by one; only at the type's
/// maximum, where one more cannot be represented, does the count stay put —
/// far past the drop threshold either way.
pub open spec fn spec_bumped(m: ExecutableThreadMetadata) -> ExecutableThreadMetadata {
    if m.simulation_failures < u32::MAX {
        ExecutableThreadMetadata {
            due_slot: m.due_slot,
            simulation_failures: (m.simulation_failures + 1) as u32,
        }
    } else {
        m
    }
}

/// A candidate transaction duplicates the thread's in-flight submission:
/// same signature, tracked at an equal-or-later due slot. Submitting such a
/// candidate would repeat an already accepted intent.
pub open spec fn spec_duplicate(
    hi: Map<u64, TransactionMetadata>,
    due_slot: u64,
    k: u64,
    signature: u64,
) -> bool {
    hi.contains_key(k) && hi[k].signature == signature && hi[k].due_slot >= due_slot
}

/// The task-execution engine's state: candidate threads with retry metadata,
/// in-flight submissions, this worker's own pool-rotation attempt, and the
/// count of threads dropped for repeated failure.
///
/// The control loop drives one slot in this order: admit the slot's due
/// threads ([`Self::index_due_threads`]), prune over-failed ones
/// ([`Self::drop_failed_threads`]), reconcile in-flight submissions
/// ([`Self::checkable_transactions`], [`Self::process_retries`]), read the
/// pool and — when absent — gate a rotation attempt
/// ([`Self::rotation_signature_to_check`], [`Self::reconcile_rotation`],
/// [`Self::should_attempt_rotation`], [`Self::record_rotation`]), compute
/// the eligible set ([`Self::get_executable_threads`]), settle each build
/// ([`Self::resolve_build_outcome`]), and commit the accepted batch
/// ([`Self::commit_submitted_batch`]).
#[derive(Debug)]
pub struct TxExecutor {
    config: PluginConfig,
    executable_threads: ThreadStore,
    transaction_history: HistoryStore,
    rotation_history: Option<TransactionMetadata>,
    dropped_threads: u64,
}

impl TxExecutor {
    /// The configuration injected at construction.
    pub closed spec fn spec_config(&self) -> PluginConfig {
        self.config
    }

    /// The configuration injected at construction.
    pub fn get_config(&self) -> (c: PluginConfig)
        ensures
            c == self.spec_config(),
    {
        self.config
    }

    /// The due-thread store as a map.
    pub closed spec fn executable(&self) -> Map<u64, ExecutableThreadMetadata> {
        self.executable_threads@
    }

    /// The in-flight submission store as a map.
    pub closed spec fn history(&self) -> Map<u64, TransactionMetadata> {
        self.transaction_history@
    }

    /// This worker's own pending pool-rotation attempt, if any.
    pub closed spec fn rotation(&self) -> Option<TransactionMetadata> {
        self.rotation_history
    }

    /// How many threads were dropped for crossing the failure threshold.
    pub closed spec fn dropped(&self) -> u64 {
        self.dropped_threads
    }

    /// The engine's invariant: the stores are well formed and no thread is
    /// tracked both as due and as in flight.
    pub closed spec fn wf(&self) -> bool {
        &&& self.executable_threads.wf()
        &&& self.transaction_history.wf()
        &&& forall|k: u64| #![trigger self.executable_threads@.dom().contains(k)]
            self.executable_threads@.dom().contains(k)
                ==> !self.transaction_history@.dom().contains(k)
    }

    /// A thread is tracked in at most one of the due store and the
    /// in-flight store.
    pub proof fn law_tracked_at_most_once(&self)
        requires
            self.wf(),
        ensures
            forall|k: u64| #![trigger self.executable().dom().contains(k)]
                self.executable().dom().contains(k) ==> !self.history().dom().contains(k),
    {
    }

    /// A fresh engine: empty stores, no rotation attempt, nothing dropped.
    pub fn new(config: PluginConfig) -> (e: TxExecutor)
        ensures
            e.wf(),
            e.spec_config() == config,
            e.executable() == Map::<u64, ExecutableThreadMetadata>::empty(),
            e.history() == Map::<u64, TransactionMetadata>::empty(),
            e.rotation() is None,
            e.dropped() == 0,
    {
        TxExecutor {
            config,
            executable_threads: ThreadStore::new(),
            transaction_history: HistoryStore::new(),
            rotation_history: None,
            dropped_threads: 0,
        }
    }

    /// The dropped-thread counter.
    pub fn dropped_threads(&self) -> (r: u64)
        ensures
            r == self.dropped(),
    {
        self.dropped_threads
    }

    /// The retry metadata of a due thread.
    pub fn get_executable(&self, thread_pubkey: u64) -> (r: Option<ExecutableThreadMetadata>)
        requires
            self.wf(),
        ensures
            match r {
                Some(m) => self.executable().dom().contains(thread_pubkey) && m
                    == self.executable()[thread_pubkey],
                None => !self.executable().dom().contains(thread_pubkey),
            },
    {
        self.executable_threads.get(thread_pubkey)
    }

    /// The in-flight submission of a thread.
    pub fn get_transaction(&self, thread_pubkey: u64) -> (r: Option<TransactionMetadata>)
        requires
            self.wf(),
        ensures
            match r {
                Some(m) => self.history().dom().contains(thread_pubkey) && m
                    == self.history()[thread_pubkey],
                None => !self.history().dom().contains(thread_pubkey),
            },
    {
        self.transaction_history.get(thread_pubkey)
    }

    /// This worker's pending rotation attempt.
    pub fn rotation_attempt(&self) -> (r: Option<TransactionMetadata>)
        ensures
            r == self.rotation(),
    {
        self.rotation_history
    }

    /// Admit a slot's newly due threads. A thread already tracked — still
    /// due or with a submission in flight — is left untouched, so its
    /// accumulated failure count and original due slot survive re-admission;
    /// a new thread enters with `due_slot == slot` and no failures.
    pub fn index_due_threads(&mut self, thread_pubkeys: &Vec<u64>, slot: u64)
        requires
            old(self).wf(),
        ensures
            final(self).wf(),
            final(self).executable() == spec_admitted(
                old(self).executable(),
                old(self).history(),
                thread_pubkeys@,
                slot,
            ),
            final(self).history() == old(self).history(),
            final(self).rotation() == old(self).rotation(),
            final(self).dropped() == old(self).dropped(),
            final(self).spec_config() == old(self).spec_config(),
            forall|k: u64| #![trigger old(self).executable().dom().contains(k)]
                old(self).executable().dom().contains(k) ==> final(self).executable().dom().contains(
                    k,
                ) && final(self).executable()[k] == old(self).executable()[k],
    {
        let ghost th0 = self.executable();
        let ghost hi0 = self.history();
        let mut i: usize = 0;
        proof {
            assert(thread_pubkeys@.take(0) =~= Seq::<u64>::empty());
            assert(self.executable() =~= spec_admitted(th0, hi0, thread_pubkeys@.take(0), slot));
        }
        while i < thread_pubkeys.len()
            invariant
                old(self).wf(),
                th0 == old(self).executable(),
                hi0 == old(self).history(),
                i <= thread_pubkeys@.len(),
                self.config == old(self).config,
                self.executable_threads.wf(),
                forall|k: u64| #![trigger self.executable_threads@.dom().contains(k)]
                    self.executable_threads@.dom().contains(k)
                        ==> !self.transaction_history@.dom().contains(k),
                self.transaction_history == old(self).transaction_history,
                self.rotation_history == old(self).rotation_history,
                self.dropped_threads == old(self).dropped_threads,
                self.executable() == spec_admitted(th0, hi0, thread_pubkeys@.take(i as int), slot),
            decreases thread_pubkeys@.len() - i,
        {
            let k = thread_pubkeys[i];
            let ghost pre = thread_pubkeys@.take(i as int);
            let ghost pre1 = thread_pubkeys@.take(i as int + 1);
            proof {
                assert(pre1 =~= pre.push(k));
                assert forall|x: u64| #[trigger] pre1.contains(x) == (pre.contains(x) || x == k) by {
                    if pre1.contains(x) {
                        let j = choose|j: int| 0 <= j < pre1.len() && pre1[j] == x;
                        if j < pre.len() {
                            assert(pre.contains(x));
                        }
                    }
                    if pre.contains(x) {
                        let j = choose|j: int| 0 <= j < pre.len() && pre[j] == x;
                        assert(pre1[j] == x);
                    }
                    if x == k {
                        assert(pre1[pre.len() as int] == x);
                    }
                }
            }
            if !self.executable_threads.contains_key(k) && !self.transaction_history.contains_key(
                k,
            ) {
                self.executable_threads.insert_fresh(
                    k,
                    ExecutableThreadMetadata { due_slot: slot, simulation_failures: 0 },
                );
            }
            proof {
                assert(self.executable() =~= spec_admitted(th0, hi0, pre1, slot));
            }
            i += 1;
        }
        proof {
            assert(thread_pubkeys@.take(thread_pubkeys@.len() as int) =~= thread_pubkeys@);
        }
    }

    /// Drop every thread whose failure count crossed the configured
    /// threshold, counting each dropped thread exactly once; the counter
    /// saturates at its maximum.
    pub fn drop_failed_threads(&mut self) -> (dropped_now: usize)
        requires
            old(self).wf(),
        ensures
            final(self).wf(),
            final(self).executable() == spec_pruned(
                old(self).executable(),
                old(self).spec_config().max_simulation_failures,
            ),
            final(self).history() == old(self).history(),
            final(self).rotation() == old(self).rotation(),
            final(self).spec_config() == old(self).spec_config(),
            old(self).executable().dom().len() == final(self).executable().dom().len()
                + dropped_now,
            final(self).dropped() == if old(self).dropped() + dropped_now <= u64::MAX {
                old(self).dropped() + dropped_now
            } else {
                u64::MAX as int
            },
    {
        let n = self.executable_threads.prune(self.config.max_simulation_failures);
        proof {
            assert forall|k: u64| #[trigger]
                self.executable_threads@.dom().contains(k) implies !self.transaction_history@.dom().contains(
                k,
            ) by {
                assert(old(self).executable_threads@.dom().contains(k));
            }
        }
        let nn: u64 = n as u64;
        if self.dropped_threads <= u64::MAX - nn {
            self.dropped_threads = self.dropped_threads + nn;
        } else {
            self.dropped_threads = u64::MAX;
        }
        n
    }

    /// The submissions whose confirmation period has passed at `slot`; the
    /// caller queries the finality of each and reports what it learned to
    /// [`Self::process_retries`].
    pub fn checkable_transactions(&self, slot: u64) -> (r: Vec<CheckableTransaction>)
        requires
            self.wf(),
        ensures
            forall|c: CheckableTransaction| #![trigger r@.contains(c)]
                r@.contains(c) <==> {
                    &&& self.history().contains_key(c.thread_pubkey)
                    &&& self.history()[c.thread_pubkey].due_slot == c.due_slot
                    &&& self.history()[c.thread_pubkey].signature == c.signature
                    &&& spec_is_checkable(
                        self.history()[c.thread_pubkey],
                        slot,
                        self.spec_config().transaction_confirmation_period,
                    )
                },
            r@.no_duplicates(),
    {
        self.transaction_history.checkable_transactions(
            slot,
            self.config.transaction_confirmation_period,
        )
    }

    /// Apply the finality statuses learned for checkable submissions, in
    /// order. A status counts only while the thread's submission is still
    /// tracked and its confirmation period has passed at `slot`: confirmed
    /// success or failure abandons the submission, a missing signature
    /// requeues the thread with its original due slot and a fresh failure
    /// count. A submission whose status query failed is simply not reported
    /// and stays tracked for the next pass.
    pub fn process_retries(&mut self, slot: u64, statuses: &Vec<(u64, SignatureStatus)>)
        requires
            old(self).wf(),
        ensures
            final(self).wf(),
            final(self).executable() == spec_retries(
                old(self).executable(),
                old(self).history(),
                statuses@,
                slot,
                old(self).spec_config().transaction_confirmation_period,
            ).0,
            final(self).history() == spec_retries(
                old(self).executable(),
                old(self).history(),
                statuses@,
                slot,
                old(self).spec_config().transaction_confirmation_period,
            ).1,
            final(self).rotation() == old(self).rotation(),
            final(self).dropped() == old(self).dropped(),
            final(self).spec_config() == old(self).spec_config(),
            forall|k: u64| #![trigger old(self).executable().dom().contains(k)]
                old(self).executable().dom().contains(k) ==> final(self).executable().dom().contains(
                    k,
                ) && final(self).executable()[k] == old(self).executable()[k],
            forall|k: u64| #![trigger final(self).executable().dom().contains(k)]
                final(self).executable().dom().contains(k) && !old(self).executable().dom().contains(
                    k,
                ) ==> {
                    &&& old(self).history().dom().contains(k)
                    &&& spec_is_checkable(
                        old(self).history()[k],
                        slot,
                        old(self).spec_config().transaction_confirmation_period,
                    )
                    &&& final(self).executable()[k] == ExecutableThreadMetadata {
                        due_slot: old(self).history()[k].due_slot,
                        simulation_failures: 0,
                    }
                },
            forall|k: u64| #![trigger final(self).history().dom().contains(k)]
                final(self).history().dom().contains(k) ==> old(self).history().dom().contains(k)
                    && final(self).history()[k] == old(self).history()[k],
            forall|k: u64| #![trigger old(self).history().dom().contains(k)]
                old(self).history().dom().contains(k) && !spec_is_checkable(
                    old(self).history()[k],
                    slot,
                    old(self).spec_config().transaction_confirmation_period,
                ) ==> final(self).history().dom().contains(k) && final(self).history()[k] == old(
                    self,
                ).history()[k],
    {
        let ghost th0 = self.executable();
        let ghost hi0 = self.history();
        let period = self.config.transaction_confirmation_period;
        let mut i: usize = 0;
        proof {
            assert(statuses@.take(0) =~= Seq::<(u64, SignatureStatus)>::empty());
        }
        while i < statuses.len()
            invariant
                old(self).wf(),
                th0 == old(self).executable(),
                hi0 == old(self).history(),
                period == old(self).spec_config().transaction_confirmation_period,
                i <= statuses@.len(),
                self.config == old(self).spec_config(),
                self.executable_threads.wf(),
                self.transaction_history.wf(),
                forall|k: u64| #![trigger self.executable_threads@.dom().contains(k)]
                    self.executable_threads@.dom().contains(k)
                        ==> !self.transaction_history@.dom().contains(k),
                self.rotation_history == old(self).rotation_history,
                self.dropped_threads == old(self).dropped_threads,
                (self.executable(), self.history()) == spec_retries(
                    th0,
                    hi0,
                    statuses@.take(i as int),
                    slot,
                    period,
                ),
            decreases statuses@.len() - i,
        {
            let (k, st) = statuses[i];
            proof {
                assert(statuses@.take(i as int + 1).drop_last() =~= statuses@.take(i as int));
                assert(statuses@.take(i as int + 1).last() == statuses@[i as int]);
                lemma_retries_props(th0, hi0, statuses@.take(i as int), slot, period);
            }
            match self.transaction_history.get(k) {
                Some(m) => {
                    if window_elapsed(m.sent_slot, slot, period) {
                        let _ = self.transaction_history.remove_key(k);
                        match st {
                            SignatureStatus::Missing => {
                                self.executable_threads.insert_fresh(
                                    k,
                                    ExecutableThreadMetadata {
                                        due_slot: m.due_slot,
                                        simulation_failures: 0,
                                    },
                                );
                            },
                            SignatureStatus::Succeeded => {},
                            SignatureStatus::Failed => {},
                        }
                    }
                },
                None => {},
            }
            i += 1;
        }
        proof {
            assert(statuses@.take(statuses@.len() as int) =~= statuses@);
            lemma_retries_props(th0, hi0, statuses@, slot, period);
            assert(self.executable() == spec_retries(th0, hi0, statuses@, slot, period).0);
            assert(self.history() == spec_retries(th0, hi0, statuses@, slot, period).1);
        }
    }

    /// Whether a pool-join attempt should be issued at `slot`: always when
    /// the coordinator is idle, never while an attempt is pending inside its
    /// confirmation window.
    pub open spec fn spec_should_attempt_rotation(&self, slot: u64) -> bool {
        match self.rotation() {
            None => true,
            Some(m) => spec_is_checkable(
                m,
                slot,
                self.spec_config().rotation_confirmation_period,
            ),
        }
    }

    /// The pending rotation attempt whose status should be queried at
    /// `slot`: one whose confirmation window has fully passed.
    pub fn rotation_signature_to_check(&self, slot: u64) -> (r: Option<u64>)
        ensures
            (match self.rotation() {
                Some(m) => r == if spec_is_checkable(
                    m,
                    slot,
                    self.spec_config().rotation_confirmation_period,
                ) {
                    Some(m.signature)
                } else {
                    None::<u64>
                },
                None => r is None,
            }),
    {
        match self.rotation_history {
            Some(m) => {
                if window_elapsed(m.sent_slot, slot, self.config.rotation_confirmation_period) {
                    Some(m.signature)
                } else {
                    None
                }
            },
            None => None,
        }
    }

    /// Resolve a pending rotation attempt from the status its signature
    /// query returned. Confirmed success or failure — only learnable once
    /// the confirmation window has passed — returns the coordinator to idle.
    /// A missing signature or an unanswered query (`None`) keeps the attempt
    /// recorded; within the window nothing changes at all.
    pub fn reconcile_rotation(&mut self, slot: u64, status: Option<SignatureStatus>)
        requires
            old(self).wf(),
        ensures
            final(self).wf(),
            final(self).executable() == old(self).executable(),
            final(self).history() == old(self).history(),
            final(self).dropped() == old(self).dropped(),
            final(self).spec_config() == old(self).spec_config(),
            final(self).rotation() == (match old(self).rotation() {
                Some(m) => if spec_is_checkable(
                    m,
                    slot,
                    old(self).spec_config().rotation_confirmation_period,
                ) && (status == Some(SignatureStatus::Succeeded) || status == Some(
                    SignatureStatus::Failed,
                )) {
                    None::<TransactionMetadata>
                } else {
                    Some(m)
                },
                None => None::<TransactionMetadata>,
            }),
    {
        match self.rotation_history {
            Some(m) => {
                if window_elapsed(m.sent_slot, slot, self.config.rotation_confirmation_period) {
                    match status {
                        Some(SignatureStatus::Succeeded) | Some(SignatureStatus::Failed) => {
                            self.rotation_history = None;
                        },
                        _ => {},
                    }
                }
            },
            None => {},
        }
    }

    /// Whether to issue a pool-join attempt now; the caller asks only when
    /// this worker is absent from the pool, and on `true` builds, validates
    /// and submits the rotation, recording it via [`Self::record_rotation`].
    pub fn should_attempt_rotation(&self, slot: u64) -> (r: bool)
        ensures
            r == self.spec_should_attempt_rotation(slot),
    {
        match self.rotation_history {
            None => true,
            Some(m) => window_elapsed(m.sent_slot, slot, self.config.rotation_confirmation_period),
        }
    }

    /// Record a rotation submission the transport accepted at `slot`; a
    /// submission the transport refused is simply not recorded, leaving the
    /// coordinator idle for a retry at the next slot.
    pub fn record_rotation(&mut self, slot: u64, signature: u64)
        requires
            old(self).wf(),
        ensures
            final(self).wf(),
            final(self).executable() == old(self).executable(),
            final(self).history() == old(self).history(),
            final(self).dropped() == old(self).dropped(),
            final(self).spec_config() == old(self).spec_config(),
            final(self).rotation() == Some(
                TransactionMetadata { due_slot: slot, sent_slot: slot, signature },
            ),
    {
        self.rotation_history = Some(
            TransactionMetadata { due_slot: slot, sent_slot: slot, signature },
        );
    }

    /// While a rotation attempt is pending, no second attempt is issued at
    /// any slot inside its confirmation window.
    pub proof fn law_rotation_single_attempt(&self, slot: u64)
        requires
            self.rotation() matches Some(m) && slot <= m.sent_slot
                + self.spec_config().rotation_confirmation_period,
        ensures
            !self.spec_should_attempt_rotation(slot),
    {
    }

    /// Count one more build failure against a thread, keeping its due slot;
    /// a thread that is not tracked as due is left alone.
    pub fn increment_simulation_failure(&mut self, thread_pubkey: u64)
        requires
            old(self).wf(),
        ensures
            final(self).wf(),
            final(self).history() == old(self).history(),
            final(self).rotation() == old(self).rotation(),
            final(self).dropped() == old(self).dropped(),
            final(self).spec_config() == old(self).spec_config(),
            final(self).executable() == if old(self).executable().dom().contains(thread_pubkey) {
                old(self).executable().insert(
                    thread_pubkey,
                    spec_bumped(old(self).executable()[thread_pubkey]),
                )
            } else {
                old(self).executable()
            },
    {
        match self.executable_threads.get(thread_pubkey) {
            Some(m) => {
                if m.simulation_failures < u32::MAX {
                    self.executable_threads.set_value(
                        thread_pubkey,
                        ExecutableThreadMetadata {
                            due_slot: m.due_slot,
                            simulation_failures: m.simulation_failures + 1,
                        },
                    );
                } else {
                    proof {
                        assert(old(self).executable().insert(thread_pubkey, spec_bumped(m))
                            =~= old(self).executable());
                    }
                }
            },
            None => {},
        }
    }

    /// Forget a thread that was already executed past its due slot by
    /// another worker: it leaves the due store silently, without touching
    /// the dropped counter.
    pub fn drop_executed_thread(&mut self, thread_pubkey: u64)
        requires
            old(self).wf(),
        ensures
            final(self).wf(),
            final(self).executable() == old(self).executable().remove(thread_pubkey),
            final(self).history() == old(self).history(),
            final(self).rotation() == old(self).rotation(),
            final(self).dropped() == old(self).dropped(),
            final(self).spec_config() == old(self).spec_config(),
    {
        let _ = self.executable_threads.remove_key(thread_pubkey);
    }

    /// Reject a candidate transaction whose signature duplicates the
    /// thread's in-flight submission tracked at an equal-or-later due slot:
    /// resubmitting such a candidate would repeat an already accepted
    /// intent.
    pub fn dedupe_tx(&self, due_slot: u64, thread_pubkey: u64, signature: u64) -> (r: Result<
        (),
        ExecutorError,
    >)
        requires
            self.wf(),
        ensures
            r is Err <==> spec_duplicate(self.history(), due_slot, thread_pubkey, signature),
            r is Err ==> r == Err::<(), ExecutorError>(ExecutorError::DuplicateTransaction),
    {
        match self.transaction_history.get(thread_pubkey) {
            Some(m) => {
                if m.signature == signature && m.due_slot >= due_slot {
                    Err(ExecutorError::DuplicateTransaction)
                } else {
                    Ok(())
                }
            },
            None => Ok(()),
        }
    }

    /// Settle one thread's build attempt, reported by the caller after the
    /// outside fetch and build ran with `due_slot` as the thread's due slot,
    /// and return the candidate to include in this slot's batch, if any. A
    /// failure to fetch the thread's definition is a transport fault: the
    /// thread stays due, its count untouched, to be retried later. A thread
    /// found already executed past its due slot is forgotten silently; a
    /// builder refusal or a failed build counts one more failure against the
    /// thread; a built candidate is withheld when its signature duplicates
    /// the thread's tracked submission.
    pub fn resolve_build_outcome(
        &mut self,
        due_slot: u64,
        thread_pubkey: u64,
        outcome: BuildOutcome,
    ) -> (r: Option<(u64, u64)>)
        requires
            old(self).wf(),
        ensures
            final(self).wf(),
            final(self).history() == old(self).history(),
            final(self).rotation() == old(self).rotation(),
            final(self).dropped() == old(self).dropped(),
            final(self).spec_config() == old(self).spec_config(),
            (match outcome {
                BuildOutcome::FetchFailed => final(self).executable() == old(self).executable()
                    && r is None,
                BuildOutcome::AlreadyExecuted => final(self).executable() == old(
                    self,
                ).executable().remove(thread_pubkey) && r is None,
                BuildOutcome::Built(signature) => {
                    &&& final(self).executable() == old(self).executable()
                    &&& r == if spec_duplicate(
                        old(self).history(),
                        due_slot,
                        thread_pubkey,
                        signature,
                    ) {
                        None::<(u64, u64)>
                    } else {
                        Some((thread_pubkey, signature))
                    }
                },
                _ => {
                    &&& final(self).executable() == if old(self).executable().dom().contains(
                        thread_pubkey,
                    ) {
                        old(self).executable().insert(
                            thread_pubkey,
                            spec_bumped(old(self).executable()[thread_pubkey]),
                        )
                    } else {
                        old(self).executable()
                    }
                    &&& r is None
                },
            }),
    {
        match outcome {
            BuildOutcome::FetchFailed => None,
            BuildOutcome::BuilderRefused | BuildOutcome::BuildFailed => {
                self.increment_simulation_failure(thread_pubkey);
                None
            },
            BuildOutcome::AlreadyExecuted => {
                self.drop_executed_thread(thread_pubkey);
                None
            },
            BuildOutcome::Built(signature) => {
                match self.dedupe_tx(due_slot, thread_pubkey, signature) {
                    Ok(()) => Some((thread_pubkey, signature)),
                    Err(_) => None,
                }
            },
        }
    }

    /// The threads eligible for an attempt at `slot`, each with its due
    /// slot: those past their backoff threshold and — when this worker is
    /// absent from an active pool — past the timeout window as well.
    pub fn get_executable_threads(&self, pool_position: &PoolPosition, slot: u64) -> (r: Vec<
        (u64, u64),
    >)
        requires
            self.wf(),
        ensures
            forall|k: u64, d: u64| #![trigger r@.contains((k, d))]
                r@.contains((k, d)) <==> {
                    &&& self.executable().contains_key(k)
                    &&& self.executable()[k].due_slot == d
                    &&& spec_is_eligible(
                        self.executable()[k],
                        slot,
                        pool_position.spec_absent_from_active_pool(),
                        self.spec_config().thread_timeout_window,
                    )
                },
            r@.no_duplicates(),
    {
        let absent = pool_position.absent_from_active_pool();
        self.executable_threads.eligible_threads(slot, absent, self.config.thread_timeout_window)
    }

    /// Commit a batch the transport accepted at `slot`: every submitted
    /// candidate whose thread is still due moves from the due store to the
    /// in-flight store, its due slot preserved and the send slot stamped.
    /// When the transport refuses the whole batch the caller simply does not
    /// commit, leaving every included thread due and unchanged for retry.
    pub fn commit_submitted_batch(&mut self, slot: u64, batch: &Vec<(u64, u64)>)
        requires
            old(self).wf(),
        ensures
            final(self).wf(),
            final(self).executable() == spec_commit(
                old(self).executable(),
                old(self).history(),
                batch@,
                slot,
            ).0,
            final(self).history() == spec_commit(
                old(self).executable(),
                old(self).history(),
                batch@,
                slot,
            ).1,
            final(self).rotation() == old(self).rotation(),
            final(self).dropped() == old(self).dropped(),
            final(self).spec_config() == old(self).spec_config(),
            forall|k: u64| #![trigger final(self).executable().dom().contains(k)]
                final(self).executable().dom().contains(k) ==> old(self).executable().dom().contains(
                    k,
                ) && final(self).executable()[k] == old(self).executable()[k],
            forall|k: u64| #![trigger old(self).history().dom().contains(k)]
                old(self).history().dom().contains(k) ==> final(self).history().dom().contains(k)
                    && final(self).history()[k] == old(self).history()[k],
            forall|k: u64| #![trigger final(self).history().dom().contains(k)]
                final(self).history().dom().contains(k) && !old(self).history().dom().contains(k)
                    ==> {
                    &&& old(self).executable().dom().contains(k)
                    &&& final(self).history()[k].due_slot == old(self).executable()[k].due_slot
                    &&& final(self).history()[k].sent_slot == slot
                },
    {
        let ghost th0 = self.executable();
        let ghost hi0 = self.history();
        let mut i: usize = 0;
        proof {
            assert(batch@.take(0) =~= Seq::<(u64, u64)>::empty());
        }
        while i < batch.len()
            invariant
                old(self).wf(),
                th0 == old(self).executable(),
                hi0 == old(self).history(),
                i <= batch@.len(),
                self.config == old(self).spec_config(),
                self.executable_threads.wf(),
                self.transaction_history.wf(),
                forall|k: u64| #![trigger self.executable_threads@.dom().contains(k)]
                    self.executable_threads@.dom().contains(k)
                        ==> !self.transaction_history@.dom().contains(k),
                self.rotation_history == old(self).rotation_history,
                self.dropped_threads == old(self).dropped_threads,
                (self.executable(), self.history()) == spec_commit(
                    th0,
                    hi0,
                    batch@.take(i as int),
                    slot,
                ),
            decreases batch@.len() - i,
        {
            let (k, signature) = batch[i];
            proof {
                assert(batch@.take(i as int + 1).drop_last() =~= batch@.take(i as int));
                assert(batch@.take(i as int + 1).last() == batch@[i as int]);
            }
            match self.executable_threads.remove_key(k) {
                Some(m) => {
                    self.transaction_history.insert_fresh(
                        k,
                        TransactionMetadata { due_slot: m.due_slot, sent_slot: slot, signature },
                    );
                },
                None => {},
            }
            i += 1;
        }
        proof {
            assert(batch@.take(batch@.len() as int) =~= batch@);
            lemma_commit_props(th0, hi0, batch@, slot);
            assert(self.executable() == spec_commit(th0, hi0, batch@, slot).0);
            assert(self.history() == spec_commit(th0, hi0, batch@, slot).1);
        }
    }
}

} // verus!
