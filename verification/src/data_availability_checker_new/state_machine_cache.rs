//! The availability cache: one state per block root, evicted least
//! recently used first once over capacity, and read access to a state in the
//! shape of the older pending-components interface. Blocks are held in
//! their cached form; restoring a block's full form when it becomes
//! available is the caller's, handed in as a closure that may fail.
use lru::LruCache;
use std::collections::hash_map::RandomState;
use std::time::Instant;
use vstd::prelude::*;
use crate::blocks::{
    AvailabilityPendingExecutedBlock, AvailableBlockView, AvailableExecutedBlockView,
    BlobIdentifier, BlobSidecar, DataColumnSidecar,
    DietAvailabilityPendingExecutedBlock, KzgVerifiedBlob, KzgVerifiedCustodyDataColumn,
    SignedBeaconBlock,
};
use crate::clock::{elapsed_nanos, instant_now};
use crate::text::{decimal, push_decimal};
use crate::data_availability_checker::availability::Availability;
use crate::data_availability_checker::error::AvailabilityCheckError;
use crate::keyed::VecMap;
use crate::primitives::{epoch_of, ChainSpec, Hash256};
use crate::recency::{
    key_of, key_root, lemma_filter_keeps_all, lemma_filter_twice, lru_capacity, other_than, lru_new, lru_pop_entry, lru_pop_lru, lru_put, lru_valid,
    recency, root_key, root_of, touched, without, RootKey,
};
use super::collections::{filled_count, BlobCollection, ColumnCollection};
use super::state_machine::{
    fresh_columns, made_available, AvailabilityError, AvailabilityState, StateTransition,
};

verus! {

/// The cache as contracts see it: the state of each root, the roots from the
/// least to the most recently used, and the capacity.
pub struct CacheView {
    pub states: Map<Hash256, AvailabilityState>,
    pub order: Seq<RootKey>,
    pub capacity: nat,
}

/// `states` and `order` once the least recently used roots are evicted, one
/// after another, until no more than `cap` states are left or no root is
/// left in the order.
pub open spec fn evicted(
    states: Map<Hash256, AvailabilityState>,
    order: Seq<RootKey>,
    cap: nat,
) -> (Map<Hash256, AvailabilityState>, Seq<RootKey>)
    decreases order.len(),
{
    if states.len() <= cap || order.len() == 0 {
        (states, order)
    } else {
        evicted(states.remove(root_of(order[0])), order.drop_first(), cap)
    }
}

/// `after` is the cache holding `states` in `order` after eviction.
pub open spec fn settled_as(
    after: CacheView,
    states: Map<Hash256, AvailabilityState>,
    order: Seq<RootKey>,
    cap: nat,
) -> bool {
    &&& (after.states, after.order) == evicted(states, order, cap)
    &&& after.capacity == cap
}

/// The available block of state `s` once the cached block was restored to
/// `x`: the block, root, import data and payload outcome come from `x`, the
/// data from the state.
pub open spec fn restored_available(
    s: AvailabilityState,
    spec: ChainSpec,
    x: AvailabilityPendingExecutedBlock,
) -> AvailableExecutedBlockView {
    AvailableExecutedBlockView {
        block: AvailableBlockView {
            block_root: x.import_data.block_root,
            block: x.block@,
            data: s.ready_data()->0,
            blobs_available_timestamp: None,
            spec,
        },
        import_data: x.import_data,
        outcome: x.payload_verification_outcome,
    }
}

/// The checker message when restoring the cached block failed with `e`.
pub open spec fn recovery_failure_message(e: AvailabilityCheckError) -> Seq<char> {
    "make_available failed: "@ + ("InternalError(\""@ + ("Recovery failed: "@ + e.spec_describe())
        + "\")"@)
}

/// The cache after a changed state `s` for `root`. If `s` has its block and
/// data (see [`made_available`]), the cached block is handed to `recover`:
/// when it comes back restored, the answer is the available block (see
/// [`restored_available`]) and `s` is kept only when `keep` is set; when
/// `recover` fails, the failure is stored (see [`recovery_fails_with`],
/// [`recovery_failure_message`]). Otherwise `s` is stored and the block is
/// reported missing components. `states` is the cache's map before; `order`
/// the recency order after `root` was touched.
pub open spec fn settles<R>(
    states: Map<Hash256, AvailabilityState>,
    order: Seq<RootKey>,
    cap: nat,
    root: Hash256,
    s: AvailabilityState,
    spec: ChainSpec,
    keep: bool,
    recover: R,
    r: Result<Availability, AvailabilityCheckError>,
    after: CacheView,
) -> bool where
    R: FnOnce(DietAvailabilityPendingExecutedBlock) -> Result<
        AvailabilityPendingExecutedBlock,
        AvailabilityCheckError,
    >,
 {
    match made_available(s, spec) {
        Some(_) => match r {
            Ok(Availability::Available(b)) => {
                &&& exists|d: DietAvailabilityPendingExecutedBlock, x: AvailabilityPendingExecutedBlock|
                    Some(d@) == s.cached_block() && #[trigger] recover.ensures((d,), Ok(x)) && b@
                        == restored_available(s, spec, x)
                &&& settled_as(
                    after,
                    if keep {
                        states.insert(root, s)
                    } else {
                        states.remove(root)
                    },
                    order,
                    cap,
                )
            },
            Err(_) => exists|d: DietAvailabilityPendingExecutedBlock, e: AvailabilityCheckError|
                Some(d@) == s.cached_block() && #[trigger] recover.ensures((d,), Err(e))
                    && recovery_fails_with(states, order, cap, root, recovery_failure_message(e), r, after),
            _ => false,
        },
        None => {
            &&& r matches Ok(Availability::MissingComponents(h)) && h == root
            &&& settled_as(after, states.insert(root, s), order, cap)
        },
    }
}

/// The cache after a failure with checker message `msg` for `root`: the
/// answer is that error and a failed state with an error of that message is
/// stored.
pub open spec fn fails_with(
    states: Map<Hash256, AvailabilityState>,
    order: Seq<RootKey>,
    cap: nat,
    root: Hash256,
    msg: Seq<char>,
    r: Result<Availability, AvailabilityCheckError>,
    after: CacheView,
) -> bool {
    &&& r matches Err(AvailabilityCheckError::Unexpected(m)) && m@ == msg
    &&& exists|f: AvailabilityState|
        #![trigger states.insert(root, f)]
        f matches AvailabilityState::Failed { block_root, error, .. } && block_root == root
            && error.check_error_message() == msg && settled_as(
            after,
            states.insert(root, f),
            order,
            cap,
        )
}

/// An internal error with message `msg`.
pub open spec fn is_internal_error(error: AvailabilityError, msg: Seq<char>) -> bool {
    error matches AvailabilityError::InternalError(m) && m@ == msg
}

/// The cache after restoring the block of `root` failed with checker
/// message `msg`: the answer is an unexpected error with that message, and a
/// failed state with an internal error of that message is stored.
pub open spec fn recovery_fails_with(
    states: Map<Hash256, AvailabilityState>,
    order: Seq<RootKey>,
    cap: nat,
    root: Hash256,
    msg: Seq<char>,
    r: Result<Availability, AvailabilityCheckError>,
    after: CacheView,
) -> bool {
    &&& r matches Err(AvailabilityCheckError::Unexpected(m)) && m@ == msg
    &&& exists|f: AvailabilityState|
        #![trigger states.insert(root, f)]
        f matches AvailabilityState::Failed { block_root, error, .. } && block_root == root
            && is_internal_error(error, msg) && settled_as(after, states.insert(root, f), order, cap)
}

/// The cache after transition `t` of the state of `root`, once `root` was
/// touched: a changed state settles (with `recover` restoring the cached
/// block), a failure is stored.
pub open spec fn transition_settles<R>(
    before: CacheView,
    root: Hash256,
    t: StateTransition,
    spec: ChainSpec,
    recover: R,
    r: Result<Availability, AvailabilityCheckError>,
    after: CacheView,
) -> bool where
    R: FnOnce(DietAvailabilityPendingExecutedBlock) -> Result<
        AvailabilityPendingExecutedBlock,
        AvailabilityCheckError,
    >,
 {
    let order = touched(before.order, key_of(root), before.capacity);
    match t {
        StateTransition::Changed(s) => settles(
            before.states,
            order,
            before.capacity,
            root,
            s,
            spec,
            false,
            recover,
            r,
            after,
        ),
        StateTransition::Failed(e) => fails_with(
            before.states,
            order,
            before.capacity,
            root,
            e.check_error_message(),
            r,
            after,
        ),
        _ => false,
    }
}

/// The state blobs for `root` are added to: the cached one, or else an empty
/// post-Deneb state with a slot per blob a block may carry, expecting as many
/// blobs as arrived.
pub open spec fn blob_target(
    states: Map<Hash256, AvailabilityState>,
    root: Hash256,
    arrived: nat,
    spec: ChainSpec,
    p: AvailabilityState,
) -> bool {
    if states.contains_key(root) {
        p == states[root]
    } else {
        p matches AvailabilityState::PostDeneb { block: None, blobs, expected_blob_count: e }
            && blobs@ == Seq::new(
            (spec.max_blobs_per_block as usize) as nat,
            |i: int| None::<KzgVerifiedBlob>,
        ) && e == arrived
    }
}

/// The state a block of `epoch` for `root` is added to: the cached one, or
/// else the initial state for the epoch without a block (see
/// [`AvailabilityState::create_initial_state`]): a fresh post-PeerDAS state
/// expecting `sampled` columns once PeerDAS is active, else an empty
/// post-Deneb state with a slot per blob a block may carry, expecting none.
pub open spec fn block_target(
    states: Map<Hash256, AvailabilityState>,
    root: Hash256,
    epoch: u64,
    spec: ChainSpec,
    sampled: u64,
    p: AvailabilityState,
) -> bool {
    if states.contains_key(root) {
        p == states[root]
    } else if spec.spec_peer_das_enabled(epoch) {
        p matches AvailabilityState::PostPeerDAS {
            block: None,
            columns,
            expected_column_count: e,
        } && fresh_columns(columns) && e == sampled
    } else {
        p matches AvailabilityState::PostDeneb { block: None, blobs, expected_blob_count: e }
            && blobs@ == Seq::new(
            (spec.max_blobs_per_block as usize) as nat,
            |i: int| None::<KzgVerifiedBlob>,
        ) && e == 0
    }
}

/// The state columns for `root` are added to: the cached one, or else a
/// fresh post-PeerDAS state expecting `sampled` columns.
pub open spec fn column_target(
    states: Map<Hash256, AvailabilityState>,
    root: Hash256,
    sampled: u64,
    p: AvailabilityState,
) -> bool {
    if states.contains_key(root) {
        p == states[root]
    } else {
        p matches AvailabilityState::PostPeerDAS {
            block: None,
            columns,
            expected_column_count: e,
        } && fresh_columns(columns) && e == sampled
    }
}

/// The block a state holds: the cached block, or an available state's
/// block.
pub open spec fn held_block(s: AvailabilityState) -> Option<crate::blocks::BlockView> {
    match s {
        AvailabilityState::Available { available_block, .. } => Some(available_block.block.block@),
        _ => match s.cached_block() {
            Some(b) => Some(b.block),
            None => None,
        },
    }
}

/// The roots whose state holds a block of an epoch before `cutoff`.
pub open spec fn stale_roots(states: Map<Hash256, AvailabilityState>, cutoff: u64) -> Set<Hash256> {
    Set::new(|h: Hash256| states.contains_key(h) && is_stale(states[h], cutoff))
}

/// The state holds a block of an epoch before `cutoff`.
pub open spec fn is_stale(s: AvailabilityState, cutoff: u64) -> bool {
    match s.held_epoch() {
        Some(e) => e < cutoff,
        None => false,
    }
}

/// Whether reconstruction was started, with the columns it starts from.
pub enum ReconstructColumnsDecision {
    Yes(Vec<KzgVerifiedCustodyDataColumn>),
    No(&'static str),
}

/// A copy of `s`.
fn copy_columns(s: &[KzgVerifiedCustodyDataColumn]) -> (r: Vec<KzgVerifiedCustodyDataColumn>)
    ensures
        r@ == s@,
{
    let mut out: Vec<KzgVerifiedCustodyDataColumn> = Vec::new();
    let mut i: usize = 0;
    while i < s.len()
        invariant
            i <= s@.len(),
            out@ == s@.take(i as int),
        decreases s@.len() - i,
    {
        out.push(s[i]);
        i = i + 1;
        proof {
            assert(out@ =~= s@.take(i as int));
        }
    }
    proof {
        assert(s@.take(i as int) =~= s@);
    }
    out
}

/// The number of blocks a state holds, as its status reports it.
pub open spec fn status_block_count(s: AvailabilityState) -> nat {
    match s {
        AvailabilityState::PreDeneb { .. } => 1,
        AvailabilityState::Reconstructing { .. } => 1,
        AvailabilityState::Available { .. } => 1,
        AvailabilityState::PostDeneb { block, .. } => if block is Some {
            1
        } else {
            0
        },
        AvailabilityState::PostPeerDAS { block, .. } => if block is Some {
            1
        } else {
            0
        },
        AvailabilityState::Failed { .. } => 0,
    }
}

/// The status of a state: the number of blocks held, then, in a PeerDAS
/// epoch, the columns held against those expected (or `?` while
/// reconstructing), else the blobs held against those expected; states
/// without such data name the kind of epoch.
pub open spec fn status_text(s: AvailabilityState, peer_das: bool) -> Seq<char> {
    let head = "block "@ + decimal(status_block_count(s));
    if peer_das {
        match s {
            AvailabilityState::PostPeerDAS { columns, expected_column_count, .. } => head
                + " data_columns "@ + decimal(columns@.columns.len()) + "/"@ + decimal(
                expected_column_count as nat,
            ),
            AvailabilityState::Reconstructing { partial_columns, .. } => head + " data_columns "@
                + decimal(partial_columns@.columns.len()) + "/? (reconstructing)"@,
            _ => head + " (PeerDAS epoch)"@,
        }
    } else {
        match s {
            AvailabilityState::PostDeneb { blobs, expected_blob_count, .. } => head + " blobs "@
                + decimal(filled_count(blobs@)) + "/"@ + decimal(expected_blob_count as nat),
            _ => head + " (pre-PeerDAS epoch)"@,
        }
    }
}

/// One minute, in nanoseconds: how long a failed state is kept.
pub const FAILED_STATE_TTL_NANOS: u128 = 60_000_000_000;

/// Five minutes, in nanoseconds: how long a reconstruction may run.
pub const RECONSTRUCTION_TTL_NANOS: u128 = 300_000_000_000;

/// Ten minutes, in nanoseconds: how long an available block is kept.
pub const AVAILABLE_STATE_TTL_NANOS: u128 = 600_000_000_000;

/// Whether a state `elapsed` nanoseconds old has outlived its time: a failed
/// state after a minute, a reconstruction after five, an available block
/// after ten; other states never.
pub open spec fn expired_after(s: AvailabilityState, elapsed: u128) -> bool {
    match s {
        AvailabilityState::Failed { .. } => elapsed > FAILED_STATE_TTL_NANOS,
        AvailabilityState::Reconstructing { .. } => elapsed > RECONSTRUCTION_TTL_NANOS,
        AvailabilityState::Available { .. } => elapsed > AVAILABLE_STATE_TTL_NANOS,
        _ => false,
    }
}

/// Whether a state `elapsed` nanoseconds old has outlived its time (see
/// [`expired_after`]).
pub fn state_expired(state: &AvailabilityState, elapsed: u128) -> (r: bool)
    ensures
        r == expired_after(*state, elapsed),
{
    match state {
        AvailabilityState::Failed { .. } => elapsed > FAILED_STATE_TTL_NANOS,
        AvailabilityState::Reconstructing { .. } => elapsed > RECONSTRUCTION_TTL_NANOS,
        AvailabilityState::Available { .. } => elapsed > AVAILABLE_STATE_TTL_NANOS,
        _ => false,
    }
}

/// The cached form of an executed block.
fn register_pending_executed_block(block: AvailabilityPendingExecutedBlock) -> (r:
    DietAvailabilityPendingExecutedBlock)
    ensures
        r@ == block@,
{
    DietAvailabilityPendingExecutedBlock {
        block: block.block,
        import_data: block.import_data,
        payload_verification_outcome: block.payload_verification_outcome,
    }
}

proof fn lemma_evicted_submap(
    states: Map<Hash256, AvailabilityState>,
    order: Seq<RootKey>,
    cap: nat,
)
    requires
        states.dom().finite(),
    ensures
        evicted(states, order, cap).0.submap_of(states),
        evicted(states, order, cap).0.dom().finite(),
    decreases order.len(),
{
    if states.len() <= cap || order.len() == 0 {
    } else {
        let smaller = states.remove(root_of(order[0]));
        lemma_evicted_submap(smaller, order.drop_first(), cap);
        let e = evicted(smaller, order.drop_first(), cap).0;
        assert(e.submap_of(states)) by {
            assert forall|k: Hash256| #[trigger] e.dom().contains(k) implies states.dom().contains(k)
                && e[k] == states[k] by {
                assert(smaller.dom().contains(k));
            }
        }
    }
}

/// The availability cache: the state of each block root whose components are
/// being gathered, with the roots' recency order for eviction.
pub struct DataAvailabilityCheckerInner {
    states: VecMap<Hash256, AvailabilityState>,
    lru_order: LruCache<RootKey, (), RandomState>,
    capacity: usize,
    custody_columns: u64,
    spec: ChainSpec,
}

impl View for DataAvailabilityCheckerInner {
    type V = CacheView;

    closed spec fn view(&self) -> CacheView {
        CacheView {
            states: self.states@,
            order: recency(self.lru_order),
            capacity: self.capacity as nat,
        }
    }
}

impl DataAvailabilityCheckerInner {
    /// Every state is well formed, the recency order holds each root once
    /// and no more roots than the capacity, which is at least one.
    pub closed spec fn wf(&self) -> bool {
        &&& self.states.wf()
        &&& self.states@.dom().finite()
        &&& forall|h: Hash256| #[trigger] self.states@.contains_key(h) ==> self.states@[h].wf()
        &&& lru_valid(self.lru_order)
        &&& lru_capacity(self.lru_order) == self.capacity
    }

    /// The chain parameters.
    pub closed spec fn chain_spec(&self) -> ChainSpec {
        self.spec
    }

    /// The number of data columns a block is expected to be sampled with.
    pub closed spec fn sampled_columns(&self) -> u64 {
        self.custody_columns
    }

    /// An empty cache that keeps the recency of at most `capacity` roots and
    /// evicts down to `capacity` states; blocks are expected with
    /// `custody_columns` data columns.
    pub fn new(capacity: usize, custody_columns: u64, spec: ChainSpec) -> (r: Result<
        Self,
        AvailabilityCheckError,
    >)
        requires
            capacity > 0,
        ensures
            r matches Ok(c) && c.wf() && c@.states == Map::<Hash256, AvailabilityState>::empty()
                && c@.order.len() == 0 && c@.capacity == capacity && c.chain_spec() == spec
                && c.sampled_columns() == custody_columns,
    {
        Ok(
            DataAvailabilityCheckerInner {
                states: VecMap::new(),
                lru_order: lru_new(capacity),
                capacity,
                custody_columns,
                spec,
            },
        )
    }

    /// Stores an executed block waiting for its data, touching its root's
    /// recency. The cached state of its root, or else the initial state for
    /// the block's epoch without a block (see [`block_target`]), takes the
    /// block in its cached form; the state is kept, and the answer is the
    /// available block once its data is ready and `recover` restored the
    /// cached block, a stored failure when `recover` fails, or that
    /// components are missing (see [`settles`]). A block of an epoch before
    /// Deneb must find its root cached.
    pub fn put_pending_executed_block<R>(
        &mut self,
        executed_block: AvailabilityPendingExecutedBlock,
        recover: R,
    ) -> (r: Result<Availability, AvailabilityCheckError>) where
        R: FnOnce(DietAvailabilityPendingExecutedBlock) -> Result<
            AvailabilityPendingExecutedBlock,
            AvailabilityCheckError,
        >,

        requires
            old(self).wf(),
            forall|d: DietAvailabilityPendingExecutedBlock| recover.requires((d,)),
            old(self)@.states.contains_key(executed_block.import_data.block_root)
                || old(self).chain_spec().spec_deneb_enabled(epoch_of(executed_block.block.slot)),
        ensures
            final(self).wf(),
            final(self).chain_spec() == old(self).chain_spec(),
            final(self).sampled_columns() == old(self).sampled_columns(),
            exists|p: AvailabilityState, d: DietAvailabilityPendingExecutedBlock|
                #[trigger] block_target(
                    old(self)@.states,
                    executed_block.import_data.block_root,
                    epoch_of(executed_block.block.slot),
                    old(self).chain_spec(),
                    old(self).sampled_columns(),
                    p,
                ) && d@ == executed_block@ && settles(
                    old(self)@.states,
                    touched(
                        old(self)@.order,
                        key_of(executed_block.import_data.block_root),
                        old(self)@.capacity,
                    ),
                    old(self)@.capacity,
                    executed_block.import_data.block_root,
                    #[trigger] p.with_block(d),
                    old(self).chain_spec(),
                    true,
                    recover,
                    r,
                    final(self)@,
                ),
    {
        let block_root = executed_block.import_data.block_root;
        let epoch = executed_block.block.epoch();
        let ghost before = self@;
        let diet_block = register_pending_executed_block(executed_block);
        lru_put(&mut self.lru_order, root_key(&block_root));
        let ghost order = self@.order;
        let current_state = match self.states.remove(&block_root) {
            Some(state) => state,
            None => AvailabilityState::create_initial_state(
                block_root,
                None,
                epoch,
                &self.spec,
                self.custody_columns,
            ),
        };
        let ghost p = current_state;
        let cached = diet_block.clone_diet();
        let ghost d = cached;
        let state_with_block = current_state.add_diet_block(cached);
        let ghost s = state_with_block;
        let r = match state_with_block.make_available(&self.spec, self.custody_columns, recover) {
            Ok(Some(available_block)) => {
                proof {
                    let (dd, x) = choose|dd: DietAvailabilityPendingExecutedBlock, x: AvailabilityPendingExecutedBlock|
                        Some(dd@) == s.cached_block() && #[trigger] recover.ensures((dd,), Ok(x))
                            && available_block@.block.block == x.block@
                            && available_block@.block.block_root == x.import_data.block_root
                            && available_block@.import_data == x.import_data
                            && available_block@.outcome == x.payload_verification_outcome;
                    assert(available_block@ == restored_available(s, self.spec, x));
                }
                self.states.insert(block_root, state_with_block);
                proof {
                    assert(self@.states =~= before.states.insert(block_root, s));
                }
                self.maybe_evict();
                Ok(Availability::Available(Box::new(available_block)))
            },
            Ok(None) => {
                self.states.insert(block_root, state_with_block);
                proof {
                    assert(self@.states =~= before.states.insert(block_root, s));
                }
                self.maybe_evict();
                Ok(Availability::MissingComponents(block_root))
            },
            Err(error) => {
                let mut msg = String::from_str("make_available failed: ");
                msg.append(error.debug_text().as_str());
                proof {
                    let (dd, e) = choose|dd: DietAvailabilityPendingExecutedBlock, e: AvailabilityCheckError|
                        Some(dd@) == s.cached_block() && #[trigger] recover.ensures((dd,), Err(e))
                            && error == AvailabilityError::InternalError(error->InternalError_0)
                            && error->InternalError_0@ == "Recovery failed: "@ + e.spec_describe();
                    assert(msg@ =~= recovery_failure_message(e));
                }
                let stored = AvailabilityError::InternalError(msg.clone());
                let failed = AvailabilityState::Failed { block_root, error: stored, failed_at: instant_now() };
                let ghost f = failed;
                self.states.insert(block_root, failed);
                proof {
                    assert(self@.states =~= before.states.insert(block_root, f));
                }
                self.maybe_evict();
                Err(AvailabilityCheckError::Unexpected(msg))
            },
        };
        proof {
            assert(block_target(
                before.states,
                block_root,
                epoch_of(d.block.slot),
                old(self).chain_spec(),
                old(self).sampled_columns(),
                p,
            ));
            assert(s == p.with_block(d));
        }
        r
    }

    /// Stores the blobs of `block_root`, touching the root's recency. The
    /// cached state, or else an empty post-Deneb state (see [`blob_target`]),
    /// takes the blobs (see [`AvailabilityState::blobs_transition`]); the
    /// result then settles, with `recover` restoring a block made available
    /// (see [`transition_settles`]). An empty list is refused and changes
    /// nothing.
    pub fn put_kzg_verified_blobs<R>(
        &mut self,
        block_root: Hash256,
        kzg_verified_blobs: Vec<KzgVerifiedBlob>,
        recover: R,
    ) -> (r: Result<Availability, AvailabilityCheckError>) where
        R: FnOnce(DietAvailabilityPendingExecutedBlock) -> Result<
            AvailabilityPendingExecutedBlock,
            AvailabilityCheckError,
        >,

        requires
            old(self).wf(),
            forall|d: DietAvailabilityPendingExecutedBlock| recover.requires((d,)),
        ensures
            final(self).wf(),
            final(self).chain_spec() == old(self).chain_spec(),
            final(self).sampled_columns() == old(self).sampled_columns(),
            kzg_verified_blobs@.len() == 0 ==> final(self)@ == old(self)@ && (r matches Err(
                AvailabilityCheckError::Unexpected(m),
            ) && m@ == "empty blobs"@),
            kzg_verified_blobs@.len() > 0 ==> exists|p: AvailabilityState, t: StateTransition|
                #[trigger] blob_target(
                    old(self)@.states,
                    block_root,
                    kzg_verified_blobs@.len(),
                    old(self).chain_spec(),
                    p,
                ) && #[trigger] p.blobs_transition(kzg_verified_blobs@, t) && transition_settles(
                    old(self)@,
                    block_root,
                    t,
                    old(self).chain_spec(),
                    recover,
                    r,
                    final(self)@,
                ),
    {
        if kzg_verified_blobs.len() == 0 {
            return Err(AvailabilityCheckError::Unexpected(String::from_str("empty blobs")));
        }
        let ghost before = self@;
        let ghost blobs_seq = kzg_verified_blobs@;
        let epoch = kzg_verified_blobs[0].epoch();
        lru_put(&mut self.lru_order, root_key(&block_root));
        let ghost order = self@.order;
        let current_state = match self.states.remove(&block_root) {
            Some(state) => state,
            None => {
                let expected_blob_count = kzg_verified_blobs.len() as u64;
                AvailabilityState::PostDeneb {
                    block: None,
                    blobs: BlobCollection::new(self.spec.max_blobs_per_block(epoch) as usize),
                    expected_blob_count,
                }
            },
        };
        let ghost p = current_state;
        let transition = current_state.add_blobs(kzg_verified_blobs, &self.spec);
        let ghost t = transition;
        let r = self.settle_transition(block_root, transition, recover, Ghost(before.states), Ghost(order));
        proof {
            assert(blob_target(before.states, block_root, blobs_seq.len(), self.spec, p));
            assert(p.blobs_transition(blobs_seq, t));
        }
        r
    }

    /// Stores the data columns of `block_root`, touching the root's recency.
    /// The cached state, or else a fresh post-PeerDAS state (see
    /// [`column_target`]), takes the columns (see
    /// [`AvailabilityState::columns_transition`]); the result then settles,
    /// with `recover` restoring a block made available (see
    /// [`transition_settles`]). An empty list is refused and changes nothing.
    pub fn put_kzg_verified_data_columns<R>(
        &mut self,
        block_root: Hash256,
        kzg_verified_data_columns: Vec<KzgVerifiedCustodyDataColumn>,
        recover: R,
    ) -> (r: Result<Availability, AvailabilityCheckError>) where
        R: FnOnce(DietAvailabilityPendingExecutedBlock) -> Result<
            AvailabilityPendingExecutedBlock,
            AvailabilityCheckError,
        >,

        requires
            old(self).wf(),
            forall|d: DietAvailabilityPendingExecutedBlock| recover.requires((d,)),
        ensures
            final(self).wf(),
            final(self).chain_spec() == old(self).chain_spec(),
            final(self).sampled_columns() == old(self).sampled_columns(),
            kzg_verified_data_columns@.len() == 0 ==> final(self)@ == old(self)@ && (r matches Err(
                AvailabilityCheckError::Unexpected(m),
            ) && m@ == "empty columns"@),
            kzg_verified_data_columns@.len() > 0 ==> exists|p: AvailabilityState, t: StateTransition|
                #[trigger] column_target(
                    old(self)@.states,
                    block_root,
                    old(self).sampled_columns(),
                    p,
                ) && #[trigger] p.columns_transition(kzg_verified_data_columns@, t)
                    && transition_settles(
                    old(self)@,
                    block_root,
                    t,
                    old(self).chain_spec(),
                    recover,
                    r,
                    final(self)@,
                ),
    {
        if kzg_verified_data_columns.len() == 0 {
            return Err(AvailabilityCheckError::Unexpected(String::from_str("empty columns")));
        }
        let ghost before = self@;
        let ghost columns_seq = kzg_verified_data_columns@;
        lru_put(&mut self.lru_order, root_key(&block_root));
        let ghost order = self@.order;
        let current_state = match self.states.remove(&block_root) {
            Some(state) => state,
            None => AvailabilityState::PostPeerDAS {
                block: None,
                columns: ColumnCollection::new(),
                expected_column_count: self.custody_columns,
            },
        };
        let ghost p = current_state;
        let transition = current_state.add_columns(kzg_verified_data_columns, &self.spec);
        let ghost t = transition;
        let r = self.settle_transition(block_root, transition, recover, Ghost(before.states), Ghost(order));
        proof {
            assert(column_target(before.states, block_root, old(self).sampled_columns(), p));
            assert(p.columns_transition(columns_seq, t));
        }
        r
    }

    /// Settles transition `t` of the state of `block_root`, which was taken
    /// out of the cache: a changed state is made available if it can be (and
    /// then dropped) or stored; a failure is stored as a failed state.
    fn settle_transition<R>(
        &mut self,
        block_root: Hash256,
        t: StateTransition,
        recover: R,
        Ghost(states): Ghost<Map<Hash256, AvailabilityState>>,
        Ghost(order): Ghost<Seq<RootKey>>,
    ) -> (r: Result<Availability, AvailabilityCheckError>) where
        R: FnOnce(DietAvailabilityPendingExecutedBlock) -> Result<
            AvailabilityPendingExecutedBlock,
            AvailabilityCheckError,
        >,

        requires
            old(self).wf(),
            forall|d: DietAvailabilityPendingExecutedBlock| recover.requires((d,)),
            old(self)@.states == states.remove(block_root),
            old(self)@.order == order,
            t matches StateTransition::Changed(s) ==> s.wf(),
        ensures
            final(self).wf(),
            final(self).chain_spec() == old(self).chain_spec(),
            final(self).sampled_columns() == old(self).sampled_columns(),
            match t {
                StateTransition::Changed(s) => settles(
                    states,
                    order,
                    old(self)@.capacity,
                    block_root,
                    s,
                    old(self).chain_spec(),
                    false,
                    recover,
                    r,
                    final(self)@,
                ),
                StateTransition::Failed(e) => fails_with(
                    states,
                    order,
                    old(self)@.capacity,
                    block_root,
                    e.check_error_message(),
                    r,
                    final(self)@,
                ),
                _ => true,
            },
    {
        match t {
            StateTransition::Completed(available_block) => {
                Ok(Availability::Available(Box::new(available_block)))
            },
            StateTransition::Changed(new_state) => {
                match new_state.make_available(&self.spec, self.custody_columns, recover) {
                    Ok(Some(available_block)) => {
                        proof {
                            let (dd, x) = choose|dd: DietAvailabilityPendingExecutedBlock, x: AvailabilityPendingExecutedBlock|
                                Some(dd@) == new_state.cached_block() && #[trigger] recover.ensures((dd,), Ok(x))
                                    && available_block@.block.block == x.block@
                                    && available_block@.block.block_root == x.import_data.block_root
                                    && available_block@.import_data == x.import_data
                                    && available_block@.outcome == x.payload_verification_outcome;
                            assert(available_block@ == restored_available(new_state, self.spec, x));
                        }
                        self.maybe_evict();
                        proof {
                            assert(states.remove(block_root) =~= old(self)@.states);
                        }
                        Ok(Availability::Available(Box::new(available_block)))
                    },
                    Ok(None) => {
                        self.states.insert(block_root, new_state);
                        proof {
                            assert(self@.states =~= states.insert(block_root, new_state));
                        }
                        self.maybe_evict();
                        Ok(Availability::MissingComponents(block_root))
                    },
                    Err(error) => {
                        let mut msg = String::from_str("make_available failed: ");
                        msg.append(error.debug_text().as_str());
                        proof {
                            let (dd, e) = choose|dd: DietAvailabilityPendingExecutedBlock, e: AvailabilityCheckError|
                                Some(dd@) == new_state.cached_block() && #[trigger] recover.ensures((dd,), Err(e))
                                    && error == AvailabilityError::InternalError(error->InternalError_0)
                                    && error->InternalError_0@ == "Recovery failed: "@ + e.spec_describe();
                            assert(msg@ =~= recovery_failure_message(e));
                        }
                        let stored = AvailabilityError::InternalError(msg.clone());
                        let failed = AvailabilityState::Failed {
                            block_root,
                            error: stored,
                            failed_at: instant_now(),
                        };
                        let ghost f = failed;
                        self.states.insert(block_root, failed);
                        proof {
                            assert(self@.states =~= states.insert(block_root, f));
                        }
                        self.maybe_evict();
                        Err(AvailabilityCheckError::Unexpected(msg))
                    },
                }
            },
            StateTransition::Failed(error) => {
                let stored = error.duplicate();
                let failed = AvailabilityState::Failed {
                    block_root,
                    error: stored,
                    failed_at: instant_now(),
                };
                let ghost f = failed;
                self.states.insert(block_root, failed);
                proof {
                    assert(self@.states =~= states.insert(block_root, f));
                }
                self.maybe_evict();
                Err(error.into_check_error())
            },
            StateTransition::NoChange => Ok(Availability::MissingComponents(block_root)),
        }
    }

    /// Starts reconstruction for `block_root` when its state may start it
    /// (see [`AvailabilityState::spec_can_start_reconstruction`]): the state
    /// becomes reconstructing with the same block and columns, the cache
    /// settles, and the held columns are handed out. Otherwise nothing
    /// changes and the answer says why.
    pub fn check_and_set_reconstruction_started(&mut self, block_root: &Hash256) -> (r:
        ReconstructColumnsDecision)
        requires
            old(self).wf(),
        ensures
            final(self).wf(),
            final(self).chain_spec() == old(self).chain_spec(),
            final(self).sampled_columns() == old(self).sampled_columns(),
            !old(self)@.states.contains_key(*block_root) ==> final(self)@ == old(self)@ && (r matches ReconstructColumnsDecision::No(m) && m@ == "block not found"@),
            old(self)@.states.contains_key(*block_root)
                && !old(self)@.states[*block_root].spec_can_start_reconstruction() ==> final(self)@
                == old(self)@ && (r matches ReconstructColumnsDecision::No(m) && m@
                == "not ready for reconstruction"@),
            old(self)@.states.contains_key(*block_root)
                && old(self)@.states[*block_root].spec_can_start_reconstruction() ==> match old(
                self,
            )@.states[*block_root] {
                AvailabilityState::PostPeerDAS { block, columns, .. } => {
                    &&& r matches ReconstructColumnsDecision::Yes(v) && v@ == columns@.columns
                    &&& exists|s: AvailabilityState|
                        #![trigger old(self)@.states.insert(*block_root, s)]
                        s matches AvailabilityState::Reconstructing {
                            block: b,
                            partial_columns: c,
                            ..
                        } && block == Some(b) && c == columns && settled_as(
                            final(self)@,
                            old(self)@.states.insert(*block_root, s),
                            old(self)@.order,
                            old(self)@.capacity,
                        )
                },
                _ => false,
            },
    {
        let ghost before = self@;
        match self.states.remove(block_root) {
            Some(state) => {
                if state.can_start_reconstruction() {
                    let columns = match &state {
                        AvailabilityState::PostPeerDAS { columns, .. } => copy_columns(
                            columns.columns(),
                        ),
                        _ => {
                            self.states.insert(*block_root, state);
                            return ReconstructColumnsDecision::No("not in PostPeerDAS state");
                        },
                    };
                    match state.start_reconstruction() {
                        StateTransition::Changed(new_state) => {
                            let ghost s = new_state;
                            self.states.insert(*block_root, new_state);
                            proof {
                                assert(self@.states =~= before.states.insert(*block_root, s));
                            }
                            self.maybe_evict();
                            ReconstructColumnsDecision::Yes(columns)
                        },
                        StateTransition::Failed(_) => {
                            ReconstructColumnsDecision::No("failed to start reconstruction")
                        },
                        _ => ReconstructColumnsDecision::No("unexpected state transition"),
                    }
                } else {
                    let ghost s = state;
                    self.states.insert(*block_root, state);
                    proof {
                        assert(self@.states =~= before.states);
                    }
                    ReconstructColumnsDecision::No("not ready for reconstruction")
                }
            },
            None => {
                proof {
                    assert(self@.states =~= before.states);
                }
                ReconstructColumnsDecision::No("block not found")
            },
        }
    }

    /// After a failed reconstruction for `block_root`: a reconstructing state
    /// goes back to waiting for columns with its block and no columns (see
    /// [`AvailabilityState::handle_reconstruction_failure`]); any other cached
    /// state becomes failed with "reconstruction failed". The cache then
    /// settles, whether or not the root was cached.
    pub fn handle_reconstruction_failure(&mut self, block_root: &Hash256)
        requires
            old(self).wf(),
        ensures
            final(self).wf(),
            final(self).chain_spec() == old(self).chain_spec(),
            final(self).sampled_columns() == old(self).sampled_columns(),
            !old(self)@.states.contains_key(*block_root) ==> settled_as(
                final(self)@,
                old(self)@.states,
                old(self)@.order,
                old(self)@.capacity,
            ),
            old(self)@.states.contains_key(*block_root) ==> exists|s: AvailabilityState|
                #![trigger old(self)@.states.insert(*block_root, s)]
                settled_as(
                    final(self)@,
                    old(self)@.states.insert(*block_root, s),
                    old(self)@.order,
                    old(self)@.capacity,
                ) && match old(self)@.states[*block_root] {
                    AvailabilityState::Reconstructing { block, partial_columns, .. } => s matches AvailabilityState::PostPeerDAS {
                        block: b,
                        columns: c,
                        expected_column_count: e,
                    } && b == Some(block) && fresh_columns(c) && e
                        == partial_columns@.expected_count,
                    _ => s matches AvailabilityState::Failed {
                        block_root: h,
                        error: AvailabilityError::ReconstructionFailed(m),
                        ..
                    } && h == *block_root && m@ == "reconstruction failed"@,
                },
    {
        let ghost before = self@;
        match self.states.remove(block_root) {
            Some(state) => {
                let next = match state.handle_reconstruction_failure(
                    String::from_str("reconstruction failed"),
                ) {
                    StateTransition::Changed(new_state) => new_state,
                    StateTransition::Completed(_) => AvailabilityState::Failed {
                        block_root: *block_root,
                        error: AvailabilityError::ReconstructionFailed(
                            String::from_str("unexpected completion during failure"),
                        ),
                        failed_at: instant_now(),
                    },
                    StateTransition::Failed(_) => AvailabilityState::Failed {
                        block_root: *block_root,
                        error: AvailabilityError::ReconstructionFailed(
                            String::from_str("reconstruction failed"),
                        ),
                        failed_at: instant_now(),
                    },
                    StateTransition::NoChange => AvailabilityState::Failed {
                        block_root: *block_root,
                        error: AvailabilityError::ReconstructionFailed(
                            String::from_str("reconstruction failed"),
                        ),
                        failed_at: instant_now(),
                    },
                };
                let ghost s = next;
                self.states.insert(*block_root, next);
                proof {
                    assert(self@.states =~= before.states.insert(*block_root, s));
                }
            },
            None => {
                proof {
                    assert(self@.states =~= before.states);
                }
            },
        }
        self.maybe_evict();
    }

    /// Forgets every root whose state holds a block of an epoch before
    /// `cutoff_epoch` (see [`stale_roots`]): its state and its place in the
    /// recency order. Never fails.
    pub fn do_maintenance(&mut self, cutoff_epoch: u64) -> (r: Result<(), AvailabilityCheckError>)
        requires
            old(self).wf(),
        ensures
            r is Ok,
            final(self).wf(),
            final(self).chain_spec() == old(self).chain_spec(),
            final(self).sampled_columns() == old(self).sampled_columns(),
            final(self)@.states == old(self)@.states.remove_keys(
                stale_roots(old(self)@.states, cutoff_epoch),
            ),
            final(self)@.order == old(self)@.order.filter(
                |k: RootKey| !stale_roots(old(self)@.states, cutoff_epoch).contains(root_of(k)),
            ),
            final(self)@.capacity == old(self)@.capacity,
    {
        let ghost before = self@;
        let ghost stale = stale_roots(before.states, cutoff_epoch);
        let all_keys = self.states.keys();
        let ghost ks = all_keys@;
        proof {
            assert forall|h: Hash256| before.states.contains_key(h) <==> ks.contains(h) by {
                if before.states.contains_key(h) {
                    let i = choose|i: int|
                        0 <= i < self.states.spec_entries().len() && (
                        #[trigger] self.states.spec_entries()[i]).0 == h;
                    assert(ks[i] == h);
                }
                if ks.contains(h) {
                    let i = choose|i: int| 0 <= i < ks.len() && #[trigger] ks[i] == h;
                    assert(self.states.spec_entries()[i].0 == h);
                }
            }
        }
        let mut keys_to_remove: Vec<Hash256> = Vec::new();
        let mut i: usize = 0;
        while i < all_keys.len()
            invariant
                self@ == before,
                stale == stale_roots(before.states, cutoff_epoch),
                self.wf(),
                all_keys@ == ks,
                i <= ks.len(),
                forall|h: Hash256| before.states.contains_key(h) <==> ks.contains(h),
                forall|h: Hash256|
                    #[trigger] keys_to_remove@.contains(h) <==> (ks.take(i as int).contains(h)
                        && stale.contains(h)),
            decreases ks.len() - i,
        {
            let h = all_keys[i];
            proof {
                assert(ks[i as int] == h);
                assert(ks.contains(h));
                assert(before.states.contains_key(h));
            }
            let state = self.states.get(&h).unwrap();
            let is_old = match state.epoch() {
                Some(epoch) => epoch < cutoff_epoch,
                None => false,
            };
            proof {
                assert(*state == before.states[h]);
                assert(stale.contains(h) == is_stale(before.states[h], cutoff_epoch));
                assert(stale.contains(h) <==> is_old);
            }
            let ghost prev = keys_to_remove@;
            if is_old {
                keys_to_remove.push(h);
            }
            proof {
                let cur = keys_to_remove@;
                assert forall|x: Hash256| cur.contains(x) <==> (prev.contains(x) || (is_old && x == h)) by {
                    if is_old {
                        assert(cur == prev.push(h));
                        if prev.contains(x) {
                            let a = choose|a: int| 0 <= a < prev.len() && #[trigger] prev[a] == x;
                            assert(cur[a] == x);
                        }
                        if x == h {
                            assert(cur[prev.len() as int] == x);
                        }
                        if cur.contains(x) {
                            let a = choose|a: int| 0 <= a < cur.len() && #[trigger] cur[a] == x;
                            if a < prev.len() {
                                assert(prev[a] == x);
                            }
                        }
                    }
                }
                let t1 = ks.take(i + 1);
                let t0 = ks.take(i as int);
                assert(t1 =~= t0.push(h));
                assert forall|x: Hash256|
                    keys_to_remove@.contains(x) <==> (t1.contains(x) && stale.contains(x)) by {
                    assert(cur.contains(x) <==> (prev.contains(x) || (is_old && x == h)));
                    assert(prev.contains(x) <==> (t0.contains(x) && stale.contains(x)));
                    if t1.contains(x) && !t0.contains(x) {
                        let j = choose|j: int| 0 <= j < t1.len() && #[trigger] t1[j] == x;
                        if j < i {
                            assert(t0[j] == x);
                        }
                    }
                    if t0.contains(x) {
                        let j = choose|j: int| 0 <= j < t0.len() && #[trigger] t0[j] == x;
                        assert(t1[j] == x);
                    }
                    if x == h {
                        assert(t1[i as int] == x);
                    }
                }
            }
            i = i + 1;
        }
        proof {
            assert(ks.take(i as int) =~= ks);
        }
        let mut j: usize = 0;
        proof {
            lemma_filter_keeps_all(
                before.order,
                |k: RootKey| !keys_to_remove@.take(0).contains(root_of(k)),
            );
        }
        while j < keys_to_remove.len()
            invariant
                self.wf(),
                self.chain_spec() == old(self).chain_spec(),
                self.sampled_columns() == old(self).sampled_columns(),
                self@.capacity == before.capacity,
                j <= keys_to_remove@.len(),
                self@.states == before.states.remove_keys(keys_to_remove@.take(j as int).to_set()),
                self@.order == before.order.filter(
                    |k: RootKey| !keys_to_remove@.take(j as int).contains(root_of(k)),
                ),
            decreases keys_to_remove@.len() - j,
        {
            let h = keys_to_remove[j];
            let ghost done = keys_to_remove@.take(j as int);
            let ghost next = keys_to_remove@.take(j + 1);
            let ghost order_before = self@.order;
            self.states.remove(&h);
            let key = root_key(&h);
            lru_pop_entry(&mut self.lru_order, key);
            proof {
                assert(next =~= done.push(h));
                assert forall|x: Hash256| #[trigger] next.contains(x) <==> (done.contains(x) || x == h) by {
                    if next.contains(x) {
                        let a = choose|a: int| 0 <= a < next.len() && #[trigger] next[a] == x;
                        if a < j {
                            assert(done[a] == x);
                        }
                    }
                    if done.contains(x) {
                        let a = choose|a: int| 0 <= a < done.len() && #[trigger] done[a] == x;
                        assert(next[a] == x);
                    }
                    if x == h {
                        assert(next[j as int] == x);
                    }
                }
                assert(self@.states =~= before.states.remove_keys(next.to_set()));
                let p = |k: RootKey| !done.contains(root_of(k));
                let q = other_than(key);
                assert(order_before == before.order.filter(p));
                lemma_filter_twice(before.order, p, q);
                assert((|k: RootKey| p(k) && q(k)) =~= (|k: RootKey| !next.contains(root_of(k))));
            }
            j = j + 1;
        }
        proof {
            assert(keys_to_remove@.take(j as int) =~= keys_to_remove@);
            assert(keys_to_remove@.to_set() =~= stale);
            assert(self@.states =~= before.states.remove_keys(stale));
            assert((|k: RootKey| !keys_to_remove@.contains(root_of(k))) =~= (|k: RootKey|
                !stale.contains(root_of(k))));
        }
        Ok(())
    }

    /// A one-line summary of `state` for a block of `epoch` (see
    /// [`status_text`]).
    pub fn get_status_string(&self, state: &AvailabilityState, epoch: u64) -> (r: String)
        ensures
            r@ == status_text(*state, self.chain_spec().spec_peer_das_enabled(epoch)),
    {
        let block_count: u64 = match state {
            AvailabilityState::PreDeneb { .. } => 1,
            AvailabilityState::Reconstructing { .. } => 1,
            AvailabilityState::Available { .. } => 1,
            AvailabilityState::PostDeneb { block, .. } => if block.is_some() {
                1
            } else {
                0
            },
            AvailabilityState::PostPeerDAS { block, .. } => if block.is_some() {
                1
            } else {
                0
            },
            AvailabilityState::Failed { .. } => 0,
        };
        let mut s = String::from_str("block ");
        push_decimal(&mut s, block_count);
        if self.spec.is_peer_das_enabled_for_epoch(epoch) {
            match state {
                AvailabilityState::PostPeerDAS { columns, expected_column_count, .. } => {
                    s.append(" data_columns ");
                    push_decimal(&mut s, columns.column_count() as u64);
                    s.append("/");
                    push_decimal(&mut s, *expected_column_count);
                },
                AvailabilityState::Reconstructing { partial_columns, .. } => {
                    s.append(" data_columns ");
                    push_decimal(&mut s, partial_columns.column_count() as u64);
                    s.append("/? (reconstructing)");
                },
                _ => {
                    s.append(" (PeerDAS epoch)");
                },
            }
        } else {
            match state {
                AvailabilityState::PostDeneb { blobs, expected_blob_count, .. } => {
                    s.append(" blobs ");
                    push_decimal(&mut s, blobs.blob_count() as u64);
                    s.append("/");
                    push_decimal(&mut s, *expected_blob_count);
                },
                _ => {
                    s.append(" (pre-PeerDAS epoch)");
                },
            }
        }
        s
    }

    /// Whether `state` has outlived its time in the cache, by the monotonic
    /// clock now (see [`expired_after`]); active states never have.
    pub fn should_evict_state(&self, state: &AvailabilityState, current_epoch: u64) -> (r: bool)
        ensures
            r ==> (state is Failed || state is Reconstructing || state is Available),
            exists|elapsed: u128| r == expired_after(*state, elapsed),
    {
        let elapsed = match state {
            AvailabilityState::Failed { failed_at, .. } => elapsed_nanos(failed_at),
            AvailabilityState::Reconstructing { reconstruction_started_at, .. } => {
                elapsed_nanos(reconstruction_started_at)
            },
            AvailabilityState::Available { completed_at, .. } => elapsed_nanos(completed_at),
            _ => 0,
        };
        let r = state_expired(state, elapsed);
        proof {
            assert(r == expired_after(*state, elapsed));
        }
        r
    }

    /// Forgets `block_root`: its state and its place in the recency order.
    pub fn remove_pending_components(&mut self, block_root: Hash256)
        requires
            old(self).wf(),
        ensures
            final(self).wf(),
            final(self).chain_spec() == old(self).chain_spec(),
            final(self).sampled_columns() == old(self).sampled_columns(),
            final(self)@.states == old(self)@.states.remove(block_root),
            final(self)@.order == without(old(self)@.order, key_of(block_root)),
            final(self)@.capacity == old(self)@.capacity,
    {
        self.states.remove(&block_root);
        lru_pop_entry(&mut self.lru_order, root_key(&block_root));
    }

    /// The number of cached states.
    pub fn block_cache_size(&self) -> (r: usize)
        requires
            self.wf(),
        ensures
            r == self@.states.len(),
    {
        self.states.len()
    }

    /// The block of the state cached for `block_root`, if the state holds
    /// one (an available state holds its available block's).
    pub fn get_execution_valid_block(&self, block_root: &Hash256) -> (r: Option<SignedBeaconBlock>)
        requires
            self.wf(),
        ensures
            match r {
                Some(b) => self@.states.contains_key(*block_root) && Some(b@)
                    == held_block(self@.states[*block_root]),
                None => !self@.states.contains_key(*block_root) || held_block(
                    self@.states[*block_root],
                ) is None,
            },
    {
        match self.states.get(block_root) {
            Some(state) => match state {
                AvailabilityState::PreDeneb { block } => Some(block.block.clone_block()),
                AvailabilityState::PostDeneb { block, .. } => match block {
                    Some(b) => Some(b.block.clone_block()),
                    None => None,
                },
                AvailabilityState::PostPeerDAS { block, .. } => match block {
                    Some(b) => Some(b.block.clone_block()),
                    None => None,
                },
                AvailabilityState::Reconstructing { block, .. } => Some(block.block.clone_block()),
                AvailabilityState::Available { available_block, .. } => {
                    Some(available_block.block.block_cloned())
                },
                AvailabilityState::Failed { .. } => None,
            },
            None => None,
        }
    }

    /// Hands `f` the state cached for `block_root` in the shape of the older
    /// pending-components interface, or none, and returns what `f` returns.
    pub fn peek_pending_components<R, F: FnOnce(Option<&CompatibilityWrapper>) -> R>(
        &self,
        block_root: &Hash256,
        f: F,
    ) -> (r: R)
        requires
            self.wf(),
            forall|w: Option<&CompatibilityWrapper>| f.requires((w,)),
        ensures
            self@.states.contains_key(*block_root) ==> exists|w: CompatibilityWrapper|
                w.state == self@.states[*block_root] && #[trigger] f.ensures((Some(&w),), r),
            !self@.states.contains_key(*block_root) ==> f.ensures((None,), r),
    {
        match self.states.get(block_root) {
            Some(state) => {
                let wrapper = CompatibilityWrapper { state };
                f(Some(&wrapper))
            },
            None => f(None),
        }
    }

    /// The blob `blob_id` names, if its root's state waits for blobs and
    /// holds it; never an error.
    pub fn peek_blob(&self, blob_id: &BlobIdentifier) -> (r: Result<
        Option<BlobSidecar>,
        AvailabilityCheckError,
    >)
        requires
            self.wf(),
        ensures
            r == Ok::<Option<BlobSidecar>, AvailabilityCheckError>(
                if self@.states.contains_key(blob_id.block_root) {
                    match self@.states[blob_id.block_root] {
                        AvailabilityState::PostDeneb { blobs, .. } => if blob_id.index
                            < blobs@.len() {
                            blobs@[blob_id.index as int]
                        } else {
                            None
                        },
                        _ => None,
                    }
                } else {
                    None
                },
            ),
    {
        match self.states.get(&blob_id.block_root) {
            Some(state) => match state {
                AvailabilityState::PostDeneb { blobs, .. } => match blobs.get_blob(blob_id.index) {
                    Some(kzg_blob) => Ok(Some(kzg_blob.clone_blob())),
                    None => Ok(None),
                },
                _ => Ok(None),
            },
            None => Ok(None),
        }
    }

    /// The data columns of `block_root`'s state, while it waits for or
    /// reconstructs columns.
    pub fn peek_data_columns(&self, block_root: Hash256) -> (r: Option<Vec<DataColumnSidecar>>)
        requires
            self.wf(),
        ensures
            match r {
                Some(v) => self@.states.contains_key(block_root) && match self@.states[block_root] {
                    AvailabilityState::PostPeerDAS { columns, .. } => v@ == columns@.columns,
                    AvailabilityState::Reconstructing { partial_columns, .. } => v@
                        == partial_columns@.columns,
                    _ => false,
                },
                None => !self@.states.contains_key(block_root) || !(self@.states[block_root] is PostPeerDAS
                    || self@.states[block_root] is Reconstructing),
            },
    {
        match self.states.get(&block_root) {
            Some(state) => match state {
                AvailabilityState::PostPeerDAS { columns, .. } => Some(columns.column_list()),
                AvailabilityState::Reconstructing { partial_columns, .. } => {
                    Some(partial_columns.column_list())
                },
                _ => None,
            },
            None => None,
        }
    }

    /// Evicts the least recently used roots, one after another, while more
    /// states than the capacity are held (see [`evicted`]).
    fn maybe_evict(&mut self)
        requires
            old(self).wf(),
        ensures
            final(self).wf(),
            settled_as(final(self)@, old(self)@.states, old(self)@.order, old(self)@.capacity),
            final(self).chain_spec() == old(self).chain_spec(),
            final(self).sampled_columns() == old(self).sampled_columns(),
    {
        let capacity = self.capacity;
        let ghost target = evicted(self@.states, self@.order, capacity as nat);
        loop
            invariant
                self.wf(),
                self.capacity == capacity,
                evicted(self@.states, self@.order, capacity as nat) == target,
                self.chain_spec() == old(self).chain_spec(),
                self.sampled_columns() == old(self).sampled_columns(),
            ensures
                self.wf(),
                self.capacity == capacity,
                (self@.states, self@.order) == target,
                self.chain_spec() == old(self).chain_spec(),
                self.sampled_columns() == old(self).sampled_columns(),
            decreases self@.order.len(),
        {
            if self.states.len() <= capacity {
                break;
            }
            match lru_pop_lru(&mut self.lru_order) {
                Some((k, _)) => {
                    let root = key_root(k);
                    self.states.remove(&root);
                },
                None => {
                    break;
                },
            }
        }
    }
}


/// The number of blob slots the compatibility view reports.
pub const COMPAT_BLOB_SLOTS: u64 = 6;

/// A view of one availability state through the older pending-components
/// interface.
pub struct CompatibilityWrapper<'a> {
    pub state: &'a AvailabilityState,
}

impl<'a> CompatibilityWrapper<'a> {
    /// Six blob slots: for a post-Deneb state, the blob held at each index
    /// 0 to 5 (none past the collection's end); for any other state, six
    /// empty slots.
    pub fn get_cached_blobs(&self) -> (r: Vec<Option<&'a KzgVerifiedBlob>>)
        ensures
            r@.len() == COMPAT_BLOB_SLOTS,
            forall|i: int|
                0 <= i < COMPAT_BLOB_SLOTS ==> #[trigger] r@[i] == (match *self.state {
                    AvailabilityState::PostDeneb { blobs, .. } => if i < blobs@.len() {
                        match blobs@[i] {
                            Some(b) => Some(&b),
                            None => None,
                        }
                    } else {
                        None
                    },
                    _ => None,
                }),
    {
        let mut out: Vec<Option<&'a KzgVerifiedBlob>> = Vec::new();
        let mut i: u64 = 0;
        while i < COMPAT_BLOB_SLOTS
            invariant
                i <= COMPAT_BLOB_SLOTS,
                out@.len() == i,
                forall|j: int|
                    0 <= j < i ==> #[trigger] out@[j] == (match *self.state {
                        AvailabilityState::PostDeneb { blobs, .. } => if j < blobs@.len() {
                            match blobs@[j] {
                                Some(b) => Some(&b),
                                None => None,
                            }
                        } else {
                            None
                        },
                        _ => None,
                    }),
            decreases COMPAT_BLOB_SLOTS - i,
        {
            let slot = match self.state {
                AvailabilityState::PostDeneb { blobs, .. } => blobs.get_blob(i),
                _ => None,
            };
            out.push(slot);
            i = i + 1;
        }
        out
    }

    /// The indices of the held columns while waiting for or reconstructing
    /// columns; none otherwise.
    pub fn get_cached_data_columns_indices(&self) -> (r: Vec<u64>)
        ensures
            r@ == (match *self.state {
                AvailabilityState::PostPeerDAS { columns, .. } => Seq::new(
                    columns@.columns.len(),
                    |i: int| columns@.columns[i].index,
                ),
                AvailabilityState::Reconstructing { partial_columns, .. } => Seq::new(
                    partial_columns@.columns.len(),
                    |i: int| partial_columns@.columns[i].index,
                ),
                _ => Seq::empty(),
            }),
    {
        match self.state {
            AvailabilityState::PostPeerDAS { columns, .. } => columns.cached_indices(),
            AvailabilityState::Reconstructing { partial_columns, .. } => {
                partial_columns.cached_indices()
            },
            _ => Vec::new(),
        }
    }

    /// The first held column with index `index`, while waiting for or
    /// reconstructing columns; none otherwise.
    pub fn get_cached_data_column(&self, index: u64) -> (r: Option<DataColumnSidecar>)
        ensures
            match *self.state {
                AvailabilityState::PostPeerDAS { columns, .. } => first_with_index(
                    columns@.columns,
                    index,
                    r,
                ),
                AvailabilityState::Reconstructing { partial_columns, .. } => first_with_index(
                    partial_columns@.columns,
                    index,
                    r,
                ),
                _ => r is None,
            },
    {
        let cc = match self.state {
            AvailabilityState::PostPeerDAS { columns, .. } => columns,
            AvailabilityState::Reconstructing { partial_columns, .. } => partial_columns,
            _ => {
                return None;
            },
        };
        match cc.get_column(index) {
            Some(col) => Some(col.clone_arc()),
            None => None,
        }
    }
}

/// `r` is the first column of `s` with index `index`, or none if no column
/// has it.
pub open spec fn first_with_index(
    s: Seq<KzgVerifiedCustodyDataColumn>,
    index: u64,
    r: Option<KzgVerifiedCustodyDataColumn>,
) -> bool {
    match r {
        Some(c) => exists|j: int|
            #![trigger s[j]]
            0 <= j < s.len() && s[j] == c && c.index == index && forall|k: int|
                0 <= k < j ==> s[k].index != index,
        None => forall|j: int| 0 <= j < s.len() ==> s[j].index != index,
    }
}

/// Eviction brings the cache within its capacity when the recency order
/// names every cached root: then no more than `cap` states are left.
pub proof fn eviction_respects_capacity(
    states: Map<Hash256, AvailabilityState>,
    order: Seq<RootKey>,
    cap: nat,
)
    requires
        states.dom().finite(),
        forall|h: Hash256| #[trigger] states.contains_key(h) ==> order.contains(key_of(h)),
    ensures
        evicted(states, order, cap).0.len() <= cap,
    decreases order.len(),
{
    if states.len() <= cap {
    } else {
        let h0 = states.dom().choose();
        assert(states.contains_key(h0));
        assert(order.contains(key_of(h0)));
        assert(order.len() > 0);
        let gone = root_of(order[0]);
        let rest = states.remove(gone);
        assert forall|h: Hash256| #[trigger] rest.contains_key(h) implies order.drop_first().contains(
            key_of(h),
        ) by {
            let i = choose|i: int| 0 <= i < order.len() && order[i] == key_of(h);
            if i == 0 {
                assert(root_of(key_of(h)) == h);
            } else {
                assert(order.drop_first()[i - 1] == key_of(h));
            }
        }
        eviction_respects_capacity(rest, order.drop_first(), cap);
    }
}

/// Eviction only drops states: what is left is held as it was.
pub proof fn eviction_keeps_states(
    states: Map<Hash256, AvailabilityState>,
    order: Seq<RootKey>,
    cap: nat,
    h: Hash256,
)
    ensures
        evicted(states, order, cap).0.contains_key(h) ==> states.contains_key(h)
            && evicted(states, order, cap).0[h] == states[h],
    decreases order.len(),
{
    if !(states.len() <= cap || order.len() == 0) {
        eviction_keeps_states(states.remove(root_of(order[0])), order.drop_first(), cap, h);
    }
}

/// Reconstruction starts at most once for a block: once a start stored the
/// reconstructing state and the cache settled, a root still cached cannot
/// start reconstruction again.
pub proof fn reconstruction_starts_once(
    before: CacheView,
    root: Hash256,
    s: AvailabilityState,
    after: CacheView,
)
    requires
        s is Reconstructing,
        settled_as(after, before.states.insert(root, s), before.order, before.capacity),
        after.states.contains_key(root),
    ensures
        after.states[root] == s,
        !after.states[root].spec_can_start_reconstruction(),
{
    eviction_keeps_states(before.states.insert(root, s), before.order, before.capacity, root);
}

/// How long each state is kept: a failed state expires once older than one
/// minute (so its block can be retried), a reconstruction once older than
/// five minutes, an available block once older than ten; a state still
/// gathering its block or data never expires. Expiry only grows with age.
pub proof fn states_expire_after_their_time(s: AvailabilityState, elapsed: u128, later: u128)
    ensures
        s is Failed ==> (expired_after(s, elapsed) <==> elapsed > 60_000_000_000),
        s is Reconstructing ==> (expired_after(s, elapsed) <==> elapsed > 300_000_000_000),
        s is Available ==> (expired_after(s, elapsed) <==> elapsed > 600_000_000_000),
        !(s is Failed || s is Reconstructing || s is Available) ==> !expired_after(s, elapsed),
        expired_after(s, elapsed) && elapsed <= later ==> expired_after(s, later),
{
}

} // verus!
