//! Verified core of a MiMo text-to-speech work queue: status lifecycles,
//! text chunking, token buckets, provider balancing, retry policy and WAV
//! assembly.

pub mod text;
pub mod error;
pub mod batch;
pub mod chunk;
pub mod clock;
pub mod id;
pub mod task;
pub mod group;
pub mod table;
pub mod rate_limiter;
pub mod balancer;
pub mod chunker;
pub mod wav;
pub mod worker;
pub mod orchestrator;
pub mod patrol;
pub mod constants;
pub mod models;
pub mod mimo;
pub mod listing;
pub mod config;
pub mod cache;
pub mod imports;
pub mod submission;
pub mod events;
