//! Fail-closed runtime reconciliation for sidecars.
//!
//! A sidecar holds a runtime overlay: values for the keys that its plan allows. Snapshots and
//! ordered events change the overlay, one atomic transition at a time. [`runtime_events`] holds the
//! state machine, [`model`] says on mathematical values what it does, and [`laws`] proves what holds
//! of it as a whole. [`guarantees`] writes out, input by input, what callers may rely on.

pub mod contract;
pub mod error;
pub mod guarantees;
pub mod key_set;
pub mod laws;
pub mod model;
pub mod revision;
pub mod runtime_events;
pub mod runtime_key;
pub mod text;
pub mod value_map;

pub use contract::{
    RuntimeApplyOutcome, RuntimeSnapshot, RuntimeSnapshotUpdate, RuntimeUpdatePlan,
    RuntimeUpdateProvider, RuntimeUpdateRole, MAX_RUNTIME_KEYS, MAX_RUNTIME_VALUE_BYTES,
    RUNTIME_CACHE_NAME, RUNTIME_EVENT_PROTOCOL, RUNTIME_UPDATE_PROTOCOL,
};
pub use error::{RuntimeEventError, RuntimeEventResult};
pub use key_set::RuntimeKeySet;
pub use revision::MAX_SAFE_REVISION;
pub use runtime_events::{
    RuntimeEventOperation, RuntimeEventOutcome, RuntimeEventSnapshotTransition, RuntimeEventState,
    RuntimeEventTransition, RuntimeEventUpdate,
};
pub use runtime_key::is_runtime_key_allowed;
pub use value_map::{RuntimeValue, RuntimeValueMap};
