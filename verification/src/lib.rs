//! The portable control plane over one managed core.
//!
//! A request is a command under an identity that its caller gave it. The
//! control plane admits it once, hands it to one executor, and keeps its state
//! in a bounded registry until it is over and its place is needed. The library
//! decides; files, processes, clocks, and tasks belong to the host around it.

pub mod call_laws;
pub mod channels;
pub mod command;
pub mod control;
pub mod control_laws;
pub mod digest;
pub mod dns;
pub mod dns_call_laws;
pub mod dns_laws;
pub mod error;
pub mod execution;
pub mod execution_laws;
pub mod executor;
pub mod executor_laws;
pub mod framing;
pub mod hex;
pub mod history;
pub mod identity_laws;
pub mod instance;
pub mod materialize;
pub mod operation;
pub mod operation_id;
pub mod outcome_laws;
pub mod registry;
pub mod registry_laws;

pub use command::{CheckRequest, ConfigInput, CoreCommand, CoreCommandEnvelope, ReconcileRequest};
pub use control::{ControlOptions, CoreControl, ExecutorExit, OperationHandle};
pub use digest::payload_digest;
pub use error::{CoreError, CoreErrorKind, Error};
pub use instance::{ApplyOutcome, CoreSpec, InstanceOptions, InstanceSpec, RevisionId};
pub use operation::{OperationOutput, OperationState};
pub use operation_id::{OperationId, ParseOperationIdError};
