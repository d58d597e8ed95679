//! The values that the runtime contracts exchange.

use crate::key_set::RuntimeKeySet;
use crate::value_map::{RuntimeValue, RuntimeValueMap};
use std::path::PathBuf;
use vstd::prelude::*;

verus! {

/// The protocol of full runtime snapshots.
pub const RUNTIME_UPDATE_PROTOCOL: &'static str = "ores.sidecar-runtime.v1";

/// The protocol of ordered runtime events.
pub const RUNTIME_EVENT_PROTOCOL: &'static str = "ores.sidecar-runtime-event.v1";

/// The cache that runtime updates come from.
pub const RUNTIME_CACHE_NAME: &'static str = "runtime-env";

/// The most entries, or keys, that one update may carry.
pub const MAX_RUNTIME_KEYS: usize = 256;

/// The most bytes that one runtime value may have: 64 KiB.
pub const MAX_RUNTIME_VALUE_BYTES: usize = 65_536;

/// `std::path::PathBuf`, which a plan carries and never looks into. Nothing is claimed of it.
#[verifier::external_type_specification]
#[verifier::external_body]
pub struct ExPathBuf(std::path::PathBuf);

/// Where runtime updates come from.
#[derive(Clone, Copy, Debug, PartialEq, Eq, Structural)]
pub enum RuntimeUpdateProvider {
    OresRedisLruCache,
}

/// The part that a sidecar plays towards its provider.
#[derive(Clone, Copy, Debug, PartialEq, Eq, Structural)]
pub enum RuntimeUpdateRole {
    Server,
}

/// How one sidecar takes runtime updates, and which keys they may set.
#[derive(Debug)]
pub struct RuntimeUpdatePlan {
    pub sidecar: String,
    pub runtime_namespace: String,
    pub provider: RuntimeUpdateProvider,
    pub lru_config_path: PathBuf,
    pub role: RuntimeUpdateRole,
    pub cache: String,
    pub allowed_keys: RuntimeKeySet,
}

/// The runtime overlay at one revision.
#[derive(Debug)]
pub struct RuntimeSnapshot {
    pub revision: u64,
    pub values: RuntimeValueMap,
}

impl Clone for RuntimeSnapshot {
    fn clone(&self) -> (copy: Self)
        ensures
            copy.revision == self.revision,
            copy.values@ == self.values@,
    {
        RuntimeSnapshot { revision: self.revision, values: self.values.independent() }
    }
}

impl PartialEq for RuntimeSnapshot {
    fn eq(&self, other: &Self) -> (same: bool)
        ensures
            same == (self.revision == other.revision && self.values@ == other.values@),
    {
        self.revision == other.revision && self.values == other.values
    }
}

impl vstd::std_specs::cmp::PartialEqSpecImpl for RuntimeSnapshot {
    open spec fn obeys_eq_spec() -> bool {
        true
    }

    open spec fn eq_spec(&self, other: &Self) -> bool {
        self.revision == other.revision && self.values@ == other.values@
    }
}

impl Eq for RuntimeSnapshot {
}

/// An authoritative snapshot of the whole overlay.
#[derive(Debug, PartialEq, Eq)]
pub struct RuntimeSnapshotUpdate {
    pub protocol: String,
    pub sidecar: String,
    /// Canonical decimal.
    pub revision: String,
    pub values: Vec<RuntimeValue>,
}

impl Clone for RuntimeSnapshotUpdate {
    fn clone(&self) -> (copy: Self)
        ensures
            copy@ == self@,
    {
        let copy = RuntimeSnapshotUpdate {
            protocol: self.protocol.clone(),
            sidecar: self.sidecar.clone(),
            revision: self.revision.clone(),
            values: self.values.clone(),
        };
        assert(copy@.values =~= self@.values);
        copy
    }
}

/// What a snapshot did to the state.
#[derive(Clone, Copy, Debug, PartialEq, Eq, Structural)]
pub enum RuntimeApplyOutcome {
    Applied { previous: u64, current: u64 },
    StaleIgnored { current: u64, incoming: u64 },
}

} // verus!
