//! Risk-scored reports on driving videos: the lifecycle of an analysis and the
//! temporal risk engine, with their contracts proved.
//!
//! A video is analysed frame by frame. The assessed frames, in the order of
//! their frame numbers, are turned into features for a sequence model, and the
//! scores that the model gives are aggregated into risk factors, temporal
//! patterns, behavioural metrics and an overall safety score. While that goes
//! on, a job store says where each analysis stands.
//!
//! Everything here counts in integers: a score of 0.9 is 900 000 millionths.
//! The program around the library does what takes time or floating point: it
//! decodes the video, asks the frame analyzer, runs the sequence model, and
//! converts at the edge.
//!
//! - [`types`]: the data model.
//! - [`fixed`], [`summation`], [`series`]: fixed-point arithmetic and the
//!   statistics of a series of samples.
//! - [`grid`]: the scores of the sequence model, one row per frame.
//! - [`engine`]: features, risk factors, patterns, metrics, safety score.
//! - [`frames`]: assessed frames kept in the order of their frame numbers.
//! - [`lifecycle`], [`store`]: the states of an analysis and the job store.
//! - [`orchestrator`]: the course of one analysis from submission to its end.
//! - [`api`], [`error`]: what a client is answered.
//! - [`prompt`]: the words exchanged with the frame analyzer.

pub mod api;
pub mod engine;
pub mod error;
pub mod fixed;
pub mod frames;
pub mod grid;
pub mod lifecycle;
pub mod orchestrator;
pub mod prompt;
pub mod series;
pub mod store;
pub mod summation;
pub mod types;
