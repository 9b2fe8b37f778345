//! Background work for a video-channel tracker: the video status machine, the
//! channel reconciliation that decides which fetched videos are new, the work
//! queue that hands jobs to workers, and the thumbnail cache.

pub mod backup;
pub mod cache;
pub mod commands;
pub mod model;
pub mod queue;
pub mod status;
pub mod sync;
pub mod text;
pub mod time;
pub mod web;
