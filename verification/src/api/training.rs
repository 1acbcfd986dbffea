//! What a request that starts, lists or cancels a training job must look
//! like.

use vstd::prelude::*;
use vstd::string::*;
use crate::api::models::{is_model_type, validate_named_model};
use crate::error::{CaptchaError, CaptchaResult};
use crate::text::str_eq;

verus! {

/// How many jobs a listing shows when the query names no limit.
pub const DEFAULT_JOB_LIMIT: u32 = 20;

/// Which training jobs to list.
#[derive(Debug, Clone)]
pub struct ListJobsQuery {
    pub status: Option<String>,
    pub limit: Option<u32>,
    pub offset: Option<u32>,
}

/// The state of a training job.
#[derive(Debug, Clone, Copy, PartialEq, Eq, Structural)]
pub enum TrainingStatus {
    Pending,
    Running,
    Completed,
    Failed,
    Cancelled,
}

impl TrainingStatus {
    /// The name under which the state is stored.
    pub open spec fn label(self) -> Seq<char> {
        match self {
            TrainingStatus::Pending => "pending"@,
            TrainingStatus::Running => "running"@,
            TrainingStatus::Completed => "completed"@,
            TrainingStatus::Failed => "failed"@,
            TrainingStatus::Cancelled => "cancelled"@,
        }
    }

    /// The name under which the state is stored.
    pub fn name(&self) -> (name: &'static str)
        ensures
            name@ == self.label(),
    {
        match self {
            TrainingStatus::Pending => "pending",
            TrainingStatus::Running => "running",
            TrainingStatus::Completed => "completed",
            TrainingStatus::Failed => "failed",
            TrainingStatus::Cancelled => "cancelled",
        }
    }
}

/// The number of epochs of a training that names none.
pub fn default_epochs() -> (epochs: u32)
    ensures
        epochs == 100,
{
    100
}

/// The batch size of a training that names none.
pub fn default_batch_size() -> (size: u32)
    ensures
        size == 32,
{
    32
}

impl ListJobsQuery {
    /// The number of jobs to list: the query's, or 20.
    pub fn page_limit(&self) -> (limit: u32)
        ensures
            limit == (match self.limit {
                Some(limit) => limit,
                None => DEFAULT_JOB_LIMIT,
            }),
    {
        match self.limit {
            Some(limit) => limit,
            None => DEFAULT_JOB_LIMIT,
        }
    }

    /// The number of jobs to skip: the query's, or none.
    pub fn page_offset(&self) -> (offset: u32)
        ensures
            offset == (match self.offset {
                Some(offset) => offset,
                None => 0,
            }),
    {
        match self.offset {
            Some(offset) => offset,
            None => 0,
        }
    }
}

/// Validate a request to start a training: the job needs a name and a
/// known kind of model.
pub fn validate_training(name: &str, model_type: &str) -> (res: CaptchaResult<()>)
    ensures
        match res {
            Ok(_) => name@.len() > 0 && is_model_type(model_type@),
            Err(e) => e matches CaptchaError::BadRequest(reason) && (if name@.len() == 0 {
                reason@ == "Job name is required"@
            } else {
                !is_model_type(model_type@) && reason@ == "Invalid model type"@
            }),
        },
{
    validate_named_model(name, model_type, "Job name is required")
}

/// Whether the caller is kept from a job that belongs to someone else. A
/// request without a caller is kept from nothing.
pub open spec fn is_foreign(owner: Option<u64>, caller: Option<u64>) -> bool {
    caller matches Some(user) && owner != Some(user)
}

/// Whether a job in this state can still be cancelled.
pub open spec fn is_cancellable(status: Seq<char>) -> bool {
    status == "pending"@ || status == "running"@
}

/// Whether the caller may cancel a job. Fails with `BadRequest` when the
/// job belongs to someone else, else when it is neither pending nor
/// running.
pub fn check_cancellable(owner: Option<u64>, caller: Option<u64>, status: &str) -> (res:
    CaptchaResult<()>)
    ensures
        match res {
            Ok(_) => !is_foreign(owner, caller) && is_cancellable(status@),
            Err(e) => e matches CaptchaError::BadRequest(reason) && (if is_foreign(owner, caller) {
                reason@ == "Not authorized to cancel this job"@
            } else {
                !is_cancellable(status@) && reason@ == "Cannot cancel job with status: "@ + status@
            }),
        },
{
    // Check ownership
    if let Some(user) = caller {
        let owned = match owner {
            Some(id) => id == user,
            None => false,
        };
        if !owned {
            return Err(
                CaptchaError::BadRequest(String::from_str("Not authorized to cancel this job")),
            );
        }
    }
    // Check if job can be cancelled
    if !str_eq(status, "pending") && !str_eq(status, "running") {
        return Err(
            CaptchaError::BadRequest(String::from_str("Cannot cancel job with status: ").concat(status)),
        );
    }
    Ok(())
}

} // verus!
