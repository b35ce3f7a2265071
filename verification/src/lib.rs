//! The logic behind the Swift bindings of the Demucs source-separation engine.
//!
//! A model is chosen ([`model`]), downloaded into a cache ([`cache`],
//! [`download`]), loaded into an engine ([`engine`]) and run on stereo audio
//! ([`chunks`], [`progress`]). What the inference core says about its models
//! reaches this crate as plain values ([`catalog`]); network, files, threads
//! and floating point stay with the caller.

pub mod cache;
pub mod catalog;
pub mod chunks;
pub mod download;
pub mod engine;
pub mod error;
pub mod fraction;
pub mod lock;
pub mod model;
pub mod progress;
pub mod stem;
