use vstd::prelude::*;

verus! {

/// The status of a job, a task or a pipeline run.
#[derive(Debug, Clone, Copy, PartialEq, Eq, Structural)]
pub enum Status {
    /// Waiting to be processed
    Pending,
    /// Being processed
    Running,
    /// Completed successfully
    Completed,
    /// Failed
    Failed,
}

/// Input for creating a new job.
#[derive(Debug, Clone)]
pub struct CreateJob {
    /// Name of the job
    pub name: String,
    /// Description of the job
    pub description: Option<String>,
}

/// Input for updating an existing job.
#[derive(Debug, Clone)]
pub struct UpdateJob {
    /// New name for the job
    pub name: Option<String>,
    /// New description for the job
    pub description: Option<String>,
    /// New status for the job
    pub status: Option<Status>,
}

/// The data needed to create a new user.
#[derive(Debug, Clone)]
pub struct CreateUser {
    /// The username for the new user
    pub username: String,
    /// The email address for the new user
    pub email: String,
}

/// The fields of a user that may be updated; `None` leaves a field as it is.
#[derive(Debug, Clone)]
pub struct UpdateUser {
    /// The new username, if any
    pub username: Option<String>,
    /// The new email address, if any
    pub email: Option<String>,
}

/// Counts of jobs and tasks by status.
#[derive(Debug, Clone, Copy, PartialEq, Eq, Structural)]
pub struct ETLMetrics {
    /// Total number of jobs
    pub total_jobs: i32,
    /// Number of completed jobs
    pub completed_jobs: i32,
    /// Number of failed jobs
    pub failed_jobs: i32,
    /// Number of running jobs
    pub running_jobs: i32,
    /// Total number of tasks
    pub total_tasks: i32,
    /// Number of completed tasks
    pub completed_tasks: i32,
    /// Number of failed tasks
    pub failed_tasks: i32,
    /// Number of running tasks
    pub running_tasks: i32,
}

/// The answer of an identity provider's token endpoint.
#[derive(Debug, Clone)]
pub struct TokenResponse {
    pub access_token: String,
    pub refresh_token: Option<String>,
    pub id_token: Option<String>,
    pub token_type: String,
    pub expires_in: u64,
}

/// The claims carried by an access token.
#[derive(Debug, Clone)]
pub struct TokenClaims {
    pub sub: String,
    pub exp: usize,
    pub iat: usize,
    pub iss: Option<String>,
    pub aud: Option<String>,
    pub email: Option<String>,
}

/// What an identity provider tells about the signed-in user.
#[derive(Debug, Clone)]
pub struct UserInfo {
    pub sub: String,
    pub name: Option<String>,
    pub given_name: Option<String>,
    pub family_name: Option<String>,
    pub nickname: Option<String>,
    pub email: String,
    pub picture: Option<String>,
}

} // verus!
