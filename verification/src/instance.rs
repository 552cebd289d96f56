//! What a core is launched from, and what applying a configuration came to.

use vstd::prelude::*;

verus! {

/// The desired core.
#[derive(Debug, Clone)]
pub struct CoreSpec {
    /// The name of the core's kind.
    pub kind: String,
    pub binary_path: String,
    pub version: Option<String>,
    pub features: Vec<String>,
}

/// Tuning of one instance, as named settings. It is carried to the launch and
/// never part of an operation's identity.
#[derive(Debug, Clone)]
pub struct InstanceOptions {
    pub settings: Vec<(String, String)>,
}

impl Default for InstanceOptions {
    fn default() -> (options: Self)
        ensures
            options.settings@ == Seq::<(String, String)>::empty(),
    {
        InstanceOptions { settings: Vec::new() }
    }
}

/// Everything that one launch needs.
#[derive(Debug, Clone)]
pub struct InstanceSpec {
    pub core: CoreSpec,
    pub config_path: String,
    pub working_dir: String,
    pub pid_file: Option<String>,
    pub options: InstanceOptions,
}

/// An applied configuration revision, by its name.
#[derive(Debug, PartialEq, Eq)]
pub struct RevisionId {
    pub name: String,
}

impl Clone for RevisionId {
    fn clone(&self) -> (copy: Self)
        ensures
            copy == *self,
    {
        RevisionId { name: self.name.clone() }
    }
}

/// What a reconcile came to, with the revision that is applied after it.
#[derive(Debug, PartialEq, Eq)]
pub enum ApplyOutcome {
    Noop { revision: RevisionId },
    Started { revision: RevisionId },
    Applied { revision: RevisionId },
    Restarted { revision: RevisionId },
    Switched { revision: RevisionId },
}

impl Clone for ApplyOutcome {
    fn clone(&self) -> (copy: Self)
        ensures
            copy == *self,
    {
        match self {
            ApplyOutcome::Noop { revision } => ApplyOutcome::Noop { revision: revision.clone() },
            ApplyOutcome::Started { revision } => ApplyOutcome::Started {
                revision: revision.clone(),
            },
            ApplyOutcome::Applied { revision } => ApplyOutcome::Applied {
                revision: revision.clone(),
            },
            ApplyOutcome::Restarted { revision } => ApplyOutcome::Restarted {
                revision: revision.clone(),
            },
            ApplyOutcome::Switched { revision } => ApplyOutcome::Switched {
                revision: revision.clone(),
            },
        }
    }
}

} // verus!
