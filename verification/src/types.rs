//! Plain data carried through the execution engine.
//!
//! Ledger account keys and transaction signatures are opaque identifiers to
//! the engine: it only ever compares them for equality, so they are modeled
//! here as plain 64-bit integers handed in by the caller.

use vstd::prelude::*;

verus! {

/// Retry metadata for a thread that is due for execution.
#[derive(Debug, Clone, Copy, PartialEq, Eq, Structural)]
pub struct ExecutableThreadMetadata {
    /// Slot at which the thread became due.
    pub due_slot: u64,
    /// Number of failed build attempts since the thread was admitted;
    /// reset to zero when a lost submission is requeued.
    pub simulation_failures: u32,
}

/// Metadata of a submitted transaction awaiting finality.
#[derive(Debug, Clone, Copy, PartialEq, Eq, Structural)]
pub struct TransactionMetadata {
    /// Slot at which the thread this transaction executes became due.
    pub due_slot: u64,
    /// Slot at which the transaction was handed to the transport.
    pub sent_slot: u64,
    /// Signature of the submitted transaction.
    pub signature: u64,
}

/// Finality status of a submitted transaction, as reported by the ledger.
/// A status query that itself failed is simply not reported to the engine;
/// the submission is retried on a later pass.
#[derive(Debug, Clone, Copy, PartialEq, Eq, Structural)]
pub enum SignatureStatus {
    /// The ledger does not know the signature: the submission was lost.
    Missing,
    /// The transaction landed and succeeded.
    Succeeded,
    /// The transaction landed and failed.
    Failed,
}

/// A submission old enough that its finality status should be queried.
#[derive(Debug, Clone, Copy, PartialEq, Eq, Structural)]
pub struct CheckableTransaction {
    /// Slot at which the thread became due.
    pub due_slot: u64,
    /// The thread whose transaction is being confirmed.
    pub thread_pubkey: u64,
    /// Signature to query.
    pub signature: u64,
}

/// What became of one thread's attempt to build a candidate transaction.
/// The fetch of the thread's definition and the build itself run outside the
/// engine; the caller reports the outcome and the engine updates its stores.
#[derive(Debug, Clone, Copy, PartialEq, Eq, Structural)]
pub enum BuildOutcome {
    /// The thread's current definition could not be fetched — a transport
    /// fault, so the thread stays due, uncounted, for a later retry.
    FetchFailed,
    /// The thread was already executed past its due slot: another worker won.
    AlreadyExecuted,
    /// The builder found its precondition unmet and declined to build.
    BuilderRefused,
    /// The builder ran and failed.
    BuildFailed,
    /// A candidate transaction was built, carrying this signature.
    Built(u64),
}

/// Errors the engine reports to its caller.
#[derive(Debug, Clone, Copy, PartialEq, Eq, Structural)]
pub enum ExecutorError {
    /// The candidate transaction duplicates one already tracked in flight.
    DuplicateTransaction,
}

/// This worker's view of the delegate pool, read fresh every slot.
#[derive(Debug, Clone, PartialEq, Eq)]
pub struct PoolPosition {
    /// This worker's index in the pool, or `None` when it is not a member.
    pub current_position: Option<u64>,
    /// The pool's ordered worker roster.
    pub workers: Vec<u64>,
}

impl PoolPosition {
    /// The worker is outside a pool that has members: it must defer to the
    /// pool until a thread has gone unexecuted for the timeout window.
    pub open spec fn spec_absent_from_active_pool(&self) -> bool {
        self.current_position is None && self.workers@.len() > 0
    }

    /// Executable test for [`Self::spec_absent_from_active_pool`].
    pub fn absent_from_active_pool(&self) -> (r: bool)
        ensures
            r == self.spec_absent_from_active_pool(),
    {
        self.current_position.is_none() && self.workers.len() > 0
    }
}

/// Configuration injected at construction; the engine owns no environment.
#[derive(Debug, Clone, Copy, PartialEq, Eq, Structural)]
pub struct PluginConfig {
    /// Identity of this worker within the network.
    pub worker_id: u64,
    /// Build failures a thread may accumulate before it is dropped.
    pub max_simulation_failures: u32,
    /// Slots an undelegated worker waits before attempting a due thread.
    pub thread_timeout_window: u64,
    /// Slots to wait before querying a submitted transaction's status.
    pub transaction_confirmation_period: u64,
    /// Slots to wait before checking on a pool-rotation attempt.
    pub rotation_confirmation_period: u64,
}

impl Default for PluginConfig {
    /// The default deployment parameters of the engine.
    fn default() -> (c: PluginConfig)
        ensures
            c.worker_id == 0,
            c.max_simulation_failures == 5,
            c.thread_timeout_window == 24,
            c.transaction_confirmation_period == 24,
            c.rotation_confirmation_period == 16,
    {
        PluginConfig {
            worker_id: 0,
            max_simulation_failures: 5,
            thread_timeout_window: 24,
            transaction_confirmation_period: 24,
            rotation_confirmation_period: 16,
        }
    }
}

} // verus!
