//! A mock execution engine for tests: configurable answers, per-payload
//! status overrides, and a count of the calls of each method.
use vstd::prelude::*;
use crate::keyed::{lemma_entry_in_map, lemma_push_map, lemma_update_map, seq_to_map, unique_keys, VecMap};
use crate::primitives::{ExecutionBlockHash, Hash256};
use super::engine::{EngineCapabilities, EngineError, ExecutionEngine, PayloadStatus};

verus! {

/// Configuration for mock execution engine behavior.
#[derive(Debug)]
pub struct MockEngineConfig {
    /// Whether the engine should report as synced.
    pub is_synced: bool,
    /// Whether the engine should report as offline.
    pub is_offline: bool,
    /// Default payload status to return for new payloads.
    pub default_payload_status: PayloadStatus,
    /// Engine capabilities to report.
    pub capabilities: EngineCapabilities,
}

impl Default for MockEngineConfig {
    fn default() -> (r: Self)
        ensures
            r.is_synced,
            !r.is_offline,
            r.default_payload_status is Valid,
            r.capabilities.all(),
    {
        MockEngineConfig {
            is_synced: true,
            is_offline: false,
            default_payload_status: PayloadStatus::Valid,
            capabilities: EngineCapabilities::all_supported(),
        }
    }
}

/// The call counts as a list of (method name, count) with distinct names.
pub open spec fn count_entries(s: Seq<(String, usize)>) -> Seq<(Seq<char>, usize)> {
    s.map_values(|e: (String, usize)| (e.0@, e.1))
}

/// Mock execution engine for testing.
pub struct MockExecutionEngine {
    config: MockEngineConfig,
    /// Stored payload statuses for specific block hashes.
    payload_statuses: VecMap<ExecutionBlockHash, PayloadStatus>,
    /// Call count tracking for verification in tests.
    call_counts: Vec<(String, usize)>,
}

impl MockExecutionEngine {
    /// The maps are held consistently.
    pub closed spec fn wf(&self) -> bool {
        self.payload_statuses.wf() && unique_keys(count_entries(self.call_counts@))
    }

    /// The configuration.
    pub closed spec fn spec_config(&self) -> MockEngineConfig {
        self.config
    }

    /// The payload status overrides, by block hash.
    pub closed spec fn spec_statuses(&self) -> Map<ExecutionBlockHash, PayloadStatus> {
        self.payload_statuses@
    }

    /// The number of calls of each method, by name.
    pub closed spec fn spec_counts(&self) -> Map<Seq<char>, usize> {
        seq_to_map(count_entries(self.call_counts@))
    }

    /// The number of calls of `method` (zero if never called).
    pub open spec fn spec_count(&self, method: Seq<char>) -> usize {
        if self.spec_counts().contains_key(method) {
            self.spec_counts()[method]
        } else {
            0
        }
    }

    /// A mock engine with the default configuration.
    pub fn new() -> (r: Self)
        ensures
            r.wf(),
            r.spec_config().is_synced,
            !r.spec_config().is_offline,
            r.spec_config().default_payload_status is Valid,
            r.spec_statuses() == Map::<ExecutionBlockHash, PayloadStatus>::empty(),
            r.spec_counts() == Map::<Seq<char>, usize>::empty(),
    {
        Self::with_config(MockEngineConfig::default())
    }

    /// A mock engine with `config`, no overrides and no calls counted.
    pub fn with_config(config: MockEngineConfig) -> (r: Self)
        ensures
            r.wf(),
            r.spec_config() == config,
            r.spec_statuses() == Map::<ExecutionBlockHash, PayloadStatus>::empty(),
            r.spec_counts() == Map::<Seq<char>, usize>::empty(),
    {
        let r = MockExecutionEngine {
            config,
            payload_statuses: VecMap::new(),
            call_counts: Vec::new(),
        };
        proof {
            assert(count_entries(r.call_counts@) =~= Seq::empty());
            assert(r.spec_counts() =~= Map::<Seq<char>, usize>::empty());
        }
        r
    }

    /// Makes new payloads with `block_hash` get `status`.
    pub fn set_payload_status(&mut self, block_hash: ExecutionBlockHash, status: PayloadStatus)
        requires
            old(self).wf(),
        ensures
            final(self).wf(),
            final(self).spec_statuses() == old(self).spec_statuses().insert(block_hash, status),
            final(self).spec_config() == old(self).spec_config(),
            final(self).spec_counts() == old(self).spec_counts(),
    {
        self.payload_statuses.insert(block_hash, status);
    }

    /// Makes every new payload without its own status answer `Valid`.
    pub fn all_payloads_valid(&mut self)
        requires
            old(self).wf(),
        ensures
            final(self).wf(),
            final(self).spec_config().default_payload_status is Valid,
            final(self).spec_config().is_synced == old(self).spec_config().is_synced,
            final(self).spec_config().is_offline == old(self).spec_config().is_offline,
            final(self).spec_config().capabilities == old(self).spec_config().capabilities,
            final(self).spec_statuses() == old(self).spec_statuses(),
            final(self).spec_counts() == old(self).spec_counts(),
    {
        self.config.default_payload_status = PayloadStatus::Valid;
    }

    /// Makes every new payload without its own status answer `Syncing`.
    pub fn all_payloads_syncing(&mut self)
        requires
            old(self).wf(),
        ensures
            final(self).wf(),
            final(self).spec_config().default_payload_status is Syncing,
            final(self).spec_config().is_synced == old(self).spec_config().is_synced,
            final(self).spec_config().is_offline == old(self).spec_config().is_offline,
            final(self).spec_config().capabilities == old(self).spec_config().capabilities,
            final(self).spec_statuses() == old(self).spec_statuses(),
            final(self).spec_counts() == old(self).spec_counts(),
    {
        self.config.default_payload_status = PayloadStatus::Syncing;
    }

    /// The position of `method` in the counts, if counted.
    fn find_count(&self, method: &String) -> (r: Option<usize>)
        ensures
            match r {
                Some(i) => i < self.call_counts@.len() && self.call_counts@[i as int].0@ == method@,
                None => forall|j: int| 0 <= j < self.call_counts@.len() ==> self.call_counts@[j].0@ != method@,
            },
    {
        let mut i: usize = 0;
        while i < self.call_counts.len()
            invariant
                i <= self.call_counts@.len(),
                forall|j: int| 0 <= j < i ==> self.call_counts@[j].0@ != method@,
            decreases self.call_counts@.len() - i,
        {
            if self.call_counts[i].0 == *method {
                return Some(i);
            }
            i = i + 1;
        }
        None
    }

    /// The number of times `method` was called.
    pub fn call_count(&self, method: &str) -> (r: usize)
        requires
            self.wf(),
        ensures
            r == self.spec_count(method@),
    {
        let m = String::from_str(method);
        match self.find_count(&m) {
            Some(i) => {
                proof {
                    let s = count_entries(self.call_counts@);
                    assert(s[i as int] == (self.call_counts@[i as int].0@, self.call_counts@[i as int].1));
                    lemma_entry_in_map(s, i as int);
                }
                self.call_counts[i].1
            },
            None => {
                proof {
                    let s = count_entries(self.call_counts@);
                    assert forall|j: int| 0 <= j < s.len() implies (#[trigger] s[j]).0 != method@ by {
                        assert(s[j].0 == self.call_counts@[j].0@);
                    }
                }
                0
            },
        }
    }

    /// Forgets every call count.
    pub fn reset_call_counts(&mut self)
        requires
            old(self).wf(),
        ensures
            final(self).wf(),
            final(self).spec_counts() == Map::<Seq<char>, usize>::empty(),
            final(self).spec_config() == old(self).spec_config(),
            final(self).spec_statuses() == old(self).spec_statuses(),
    {
        self.call_counts.clear();
        proof {
            assert(count_entries(self.call_counts@) =~= Seq::empty());
            assert(self.spec_counts() =~= Map::<Seq<char>, usize>::empty());
        }
    }

    /// Counts one more call of `method` (wrapping at the largest count).
    fn increment_call_count(&mut self, method: &str)
        requires
            old(self).wf(),
        ensures
            final(self).wf(),
            final(self).spec_counts() == old(self).spec_counts().insert(
                method@,
                old(self).spec_count(method@).wrapping_add(1),
            ),
            final(self).spec_config() == old(self).spec_config(),
            final(self).spec_statuses() == old(self).spec_statuses(),
    {
        let m = String::from_str(method);
        let ghost s0 = count_entries(self.call_counts@);
        match self.find_count(&m) {
            Some(i) => {
                let c = self.call_counts[i].1;
                proof {
                    assert(s0[i as int] == (self.call_counts@[i as int].0@, c));
                    lemma_entry_in_map(s0, i as int);
                }
                self.call_counts.set(i, (m, c.wrapping_add(1)));
                proof {
                    let s1 = count_entries(self.call_counts@);
                    assert(s1 =~= s0.update(i as int, (method@, c.wrapping_add(1))));
                    lemma_update_map(s0, i as int, method@, c.wrapping_add(1));
                    assert(unique_keys(s1)) by {
                        assert forall|a: int, b: int|
                            0 <= a < s1.len() && 0 <= b < s1.len() && a != b implies (#[trigger] s1[a]).0
                            != (#[trigger] s1[b]).0 by {
                            if a != i {
                                assert(s1[a] == s0[a]);
                            }
                            if b != i {
                                assert(s1[b] == s0[b]);
                            }
                        }
                    }
                }
            },
            None => {
                proof {
                    assert forall|j: int| 0 <= j < s0.len() implies (#[trigger] s0[j]).0 != method@ by {
                        assert(s0[j].0 == self.call_counts@[j].0@);
                    }
                }
                self.call_counts.push((m, 1));
                proof {
                    let s1 = count_entries(self.call_counts@);
                    assert(s1 =~= s0.push((method@, 1usize)));
                    lemma_push_map(s0, method@, 1usize);
                    assert(unique_keys(s1)) by {
                        assert forall|a: int, b: int|
                            0 <= a < s1.len() && 0 <= b < s1.len() && a != b implies (#[trigger] s1[a]).0
                            != (#[trigger] s1[b]).0 by {
                            if a < s0.len() {
                                assert(s1[a] == s0[a]);
                            }
                            if b < s0.len() {
                                assert(s1[b] == s0[b]);
                            }
                        }
                    }
                }
            },
        }
    }

    /// Reports offline as an error, online as success; counts the call.
    pub fn upcheck(&mut self) -> (r: Result<(), EngineError>)
        requires
            old(self).wf(),
        ensures
            final(self).wf(),
            r is Ok <==> !old(self).spec_config().is_offline,
            r is Err ==> r matches Err(EngineError::Offline),
            final(self).spec_counts() == old(self).spec_counts().insert(
                "upcheck"@,
                old(self).spec_count("upcheck"@).wrapping_add(1),
            ),
            final(self).spec_config() == old(self).spec_config(),
            final(self).spec_statuses() == old(self).spec_statuses(),
    {
        self.increment_call_count("upcheck");
        if self.config.is_offline {
            Err(EngineError::Offline)
        } else {
            Ok(())
        }
    }
}

impl Default for MockExecutionEngine {
    fn default() -> (r: Self)
        ensures
            r.wf(),
            r.spec_config().is_synced,
            !r.spec_config().is_offline,
            r.spec_config().default_payload_status is Valid,
            r.spec_statuses() == Map::<ExecutionBlockHash, PayloadStatus>::empty(),
            r.spec_counts() == Map::<Seq<char>, usize>::empty(),
    {
        Self::new()
    }
}

impl ExecutionEngine for MockExecutionEngine {
    open spec fn engine_inv(&self) -> bool {
        self.wf()
    }

    /// The status set for the payload's block hash, or else the configured
    /// default; counts the call.
    fn notify_new_payload(&mut self, block_hash: ExecutionBlockHash) -> (r: Result<PayloadStatus, EngineError>)
        ensures
            r matches Ok(s) && s == (if old(self).spec_statuses().contains_key(block_hash) {
                old(self).spec_statuses()[block_hash]
            } else {
                old(self).spec_config().default_payload_status
            }),
            final(self).spec_counts() == old(self).spec_counts().insert(
                "notify_new_payload"@,
                old(self).spec_count("notify_new_payload"@).wrapping_add(1),
            ),
            final(self).spec_config() == old(self).spec_config(),
            final(self).spec_statuses() == old(self).spec_statuses(),
    {
        self.increment_call_count("notify_new_payload");
        match self.payload_statuses.get(&block_hash) {
            Some(status) => Ok(status.copy()),
            None => Ok(self.config.default_payload_status.copy()),
        }
    }

    /// The configured answer; counts the call.
    fn is_synced(&mut self) -> (r: bool)
        ensures
            r == old(self).spec_config().is_synced,
            final(self).spec_counts() == old(self).spec_counts().insert(
                "is_synced"@,
                old(self).spec_count("is_synced"@).wrapping_add(1),
            ),
            final(self).spec_config() == old(self).spec_config(),
            final(self).spec_statuses() == old(self).spec_statuses(),
    {
        self.increment_call_count("is_synced");
        self.config.is_synced
    }

    /// The configured answer; counts the call.
    fn is_offline(&mut self) -> (r: bool)
        ensures
            r == old(self).spec_config().is_offline,
            final(self).spec_counts() == old(self).spec_counts().insert(
                "is_offline"@,
                old(self).spec_count("is_offline"@).wrapping_add(1),
            ),
            final(self).spec_config() == old(self).spec_config(),
            final(self).spec_statuses() == old(self).spec_statuses(),
    {
        self.increment_call_count("is_offline");
        self.config.is_offline
    }
}

} // verus!
