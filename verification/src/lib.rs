//! Core of an HTTP Live Streaming downloader: choosing a variant, resolving
//! locations, resolving the shared key, retrying and scheduling segment
//! fetches under a concurrency bound, decrypting, and merging the segments
//! in manifest order.
//!
//! The library computes on plain values. Network and file access belong to
//! the program around it, which performs the actions this library decides on
//! and hands back what happened.

pub mod cipher;
pub mod controller;
pub mod error;
pub mod fetch;
pub mod key;
pub mod playlist;
pub mod store;
pub mod text;
pub mod transcode;
pub mod uri;

pub use cipher::{decrypt, decrypt_segment, EncryptionKey};
pub use controller::{prepare_job, Job, JobFailure, JobResult, Progress, SegmentStatus};
pub use error::PipelineError;
pub use fetch::{DownloadTask, FetchStep, Response, TaskStatus};
pub use key::{decode_iv, key_request, resolve_key, KeyRequest};
pub use playlist::{
    best_variant_index, load_manifest, media_location, select_best_variant, KeyRef, Manifest,
    Resolution, Segment, Variant,
};
pub use store::{merge, temp_store_name, SegmentStore, MERGED_STORE_NAME};
pub use transcode::{classify_encoders, transcode_args, AccelType};
pub use uri::{base_directory, referer_for, resolve_segment_uris, resolve_uri};
