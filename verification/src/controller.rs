//! The concurrency controller: a job as a state machine over starts and
//! settlements, what holds of every state it can reach, and the executable
//! job that follows the machine.

pub mod job;
pub mod laws;
pub mod model;

pub use job::{prepare_job, Job};
pub use model::{
    JobEvent, JobFailure, JobModel, JobResult, JobResultModel, Progress, SegmentStatus,
};
