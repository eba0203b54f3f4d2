//! Plain domain enumerations of the job portal the form generator
//! serves: application kinds, job and runner states, resource roles,
//! and the size steps of the UI scale.

use vstd::prelude::*;

verus! {

/// A relative size step of a UI element.
#[derive(Debug, Clone, Copy, PartialEq, Eq)]
pub enum Size {
    /// No size step at all.
    Unsized,
    Xs,
    Sm,
    Md,
    Lg,
    Xl,
}

/// What kind of program a submitted application is.
#[derive(Debug, Clone, Copy, PartialEq, Eq)]
pub enum AppType {
    /// Used as the inert default.
    Unknown,
    PythonScript,
    LinuxBinary,
    WindowBinary,
    ShellScript,
}

impl Default for AppType {
    /// The inert default application kind.
    fn default() -> (r: AppType)
        ensures
            r == AppType::Unknown,
    {
        AppType::Unknown
    }
}

/// Where a submitted job stands in its life cycle.
#[derive(Debug, Clone, Copy, PartialEq, Eq)]
pub enum JobStatus {
    /// Used as the default; does not trigger the backend.
    UploadingInputResources,
    Queued,
    Preparing,
    FetchingResources,
    Starting,
    Running,
    Paused,
    CleaningUp,
    UploadingResults,
    Succeeded,
    Failed,
    FailedResourceError,
    FailedTerminated,
    FailedTimeout,
    FailedRunnerException,
}

impl Default for JobStatus {
    /// The inert default status.
    fn default() -> (r: JobStatus)
        ensures
            r == JobStatus::UploadingInputResources,
    {
        JobStatus::UploadingInputResources
    }
}

impl JobStatus {
    /// The display label of a status.
    pub open spec fn spec_label(self) -> Seq<char> {
        match self {
            JobStatus::UploadingInputResources => "Uploading Input Resources"@,
            JobStatus::Queued => "Queued"@,
            JobStatus::Preparing => "Preparing"@,
            JobStatus::FetchingResources => "Fetching Resources"@,
            JobStatus::Starting => "Starting"@,
            JobStatus::Running => "Running"@,
            JobStatus::Paused => "Paused"@,
            JobStatus::CleaningUp => "Cleaning Up"@,
            JobStatus::UploadingResults => "Uploading Results"@,
            JobStatus::Succeeded => "Succeeded"@,
            JobStatus::Failed => "Failed"@,
            JobStatus::FailedResourceError => "Failed - Resource Error"@,
            JobStatus::FailedTerminated => "Failed - Terminated"@,
            JobStatus::FailedTimeout => "Failed - Timeout"@,
            JobStatus::FailedRunnerException => "Failed - Runner Exception"@,
        }
    }

    /// Renders a status for display.
    pub fn label(&self) -> (r: String)
        ensures
            r@ == self.spec_label(),
    {
        match self {
            JobStatus::UploadingInputResources => String::from_str("Uploading Input Resources"),
            JobStatus::Queued => String::from_str("Queued"),
            JobStatus::Preparing => String::from_str("Preparing"),
            JobStatus::FetchingResources => String::from_str("Fetching Resources"),
            JobStatus::Starting => String::from_str("Starting"),
            JobStatus::Running => String::from_str("Running"),
            JobStatus::Paused => String::from_str("Paused"),
            JobStatus::CleaningUp => String::from_str("Cleaning Up"),
            JobStatus::UploadingResults => String::from_str("Uploading Results"),
            JobStatus::Succeeded => String::from_str("Succeeded"),
            JobStatus::Failed => String::from_str("Failed"),
            JobStatus::FailedResourceError => String::from_str("Failed - Resource Error"),
            JobStatus::FailedTerminated => String::from_str("Failed - Terminated"),
            JobStatus::FailedTimeout => String::from_str("Failed - Timeout"),
            JobStatus::FailedRunnerException => String::from_str("Failed - Runner Exception"),
        }
    }
}

/// What role a file plays for a job.
#[derive(Debug, Clone, Copy, PartialEq, Eq)]
pub enum ResourceType {
    Input,
    Output,
    Config,
    Log,
    Temp,
    Result,
}

/// Where a compute runner stands from the portal's point of view.
#[derive(Debug, Clone, Copy, PartialEq, Eq)]
pub enum RunnerState {
    Idle,
    Busy,
    Offline,
    Unregistered,
    /// Used as the default.
    Unknown,
}

impl Default for RunnerState {
    /// The default state for a runner not yet reported on.
    fn default() -> (r: RunnerState)
        ensures
            r == RunnerState::Unknown,
    {
        RunnerState::Unknown
    }
}

} // verus!
