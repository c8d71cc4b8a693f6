//! A small continuous-integration build runner: it brings a local checkout
//! of a repository to a requested commit, runs the configured shell steps
//! in order against a disposable copy of the tree, stops at the first step
//! that fails, streams progress to an optional listener, and assembles the
//! per-step outcomes into a build result.

use vstd::prelude::*;

pub mod errors;
pub mod integrations;
pub mod json;
mod runner;
pub mod utils;

pub use errors::ParseError;
pub use errors::SyncError;
pub use integrations::Hookable;
pub use integrations::Integrations;
pub use runner::BuildConfig;
pub use runner::BuildSession;
pub use runner::Runner;

verus! {

/// A request to build a certain commit
#[derive(Debug)]
pub struct BuildRequest {
    pub integration: Integrations,
    pub owner: String,
    pub reponame: String,
    pub commit: String,
}

impl BuildRequest {
    pub fn new(
        integration: Integrations,
        owner: String,
        reponame: String,
        commit: String,
    ) -> (r: Result<BuildRequest, ParseError>)
        ensures
            r matches Ok(req) && req.integration == integration && req.owner@ == owner@
                && req.reponame@ == reponame@ && req.commit@ == commit@,
    {
        Ok(BuildRequest { owner, reponame, commit, integration })
    }
}

/// Status of a `BuildStepResult`
#[derive(Clone, Copy, Debug, PartialEq, Eq, Structural)]
pub enum BuildStatus {
    Successful,
    Failed,
    InProgress,
    Stopped,
}

/// A single step in a build
#[derive(Debug)]
pub struct BuildStep {
    pub cmd: String,
}

/// The ordered list of steps making up one build
#[derive(Debug)]
pub struct BuildInstruction {
    pub steps: Vec<BuildStep>,
}

/// The result of executing a `BuildStep`
#[derive(Debug)]
pub struct BuildStepResult {
    pub status: BuildStatus,
    pub cmd: String,
    pub output: String,
}

impl View for BuildStepResult {
    type V = (BuildStatus, Seq<char>, Seq<char>);

    open spec fn view(&self) -> (BuildStatus, Seq<char>, Seq<char>) {
        (self.status, self.cmd@, self.output@)
    }
}

/// Contains results of build
#[derive(Debug)]
pub struct BuildResult {
    pub steps: Vec<BuildStepResult>,
}

impl BuildResult {
    /// A build counts as successful when every step that ran succeeded.
    pub open spec fn spec_successful(&self) -> bool {
        forall|i: int|
            0 <= i < self.steps@.len() ==> #[trigger] self.steps@[i].status
                == BuildStatus::Successful
    }

    pub fn successful(&self) -> (r: bool)
        ensures
            r == self.spec_successful(),
    {
        let mut i: usize = 0;
        while i < self.steps.len()
            invariant
                i <= self.steps@.len(),
                forall|j: int|
                    0 <= j < i ==> #[trigger] self.steps@[j].status == BuildStatus::Successful,
            decreases self.steps@.len() - i,
        {
            if self.steps[i].status != BuildStatus::Successful {
                return false;
            }
            i += 1;
        }
        true
    }
}

} // verus!
