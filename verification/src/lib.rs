//! Structural core of a scriptable audio workstation engine.
//!
//! A project is a set of samples, note events ("flowws"), generator and
//! effect nodes, and the connections between them.  This crate holds the
//! parts of the engine that decide *what* is computed and in which order, and
//! every function in it carries a contract that Verus proves:
//!
//! - [`config`]: the settings a project is opened with;
//! - [`bank`], [`bufferbank`], [`sample`]: named resources with deferred
//!   removal, and stereo samples;
//! - [`floww`]: time-ordered note events with block cursors, for rendering
//!   and for live streams;
//! - [`topology`], [`graph`]: the processing graph, its guard against cycles
//!   and the order in which a chunk runs its vertices;
//! - [`extensions`], [`adsr`], [`synth`], [`generators`]: the kinds of
//!   vertex, their state, and the frame positions of the sample players;
//! - [`seeds`], [`builder`], [`state`]: from a project description to the
//!   banks and the graph;
//! - [`control`], [`render`]: the control verbs, and the plan for rendering
//!   to a file.
//!
//! Sample values are carried as 32-bit IEEE-754 words (see
//! [`scalar::Scalar`]): they can be stored, moved and compared here, and the
//! caller does the arithmetic on them.

pub mod scalar;
pub mod config;
pub mod floww;
pub mod bank;
pub mod bufferbank;
pub mod sample;
pub mod adsr;
pub mod synth;
pub mod extensions;
pub mod topology;
pub mod graph;
pub mod generators;
pub mod control;
pub mod render;
pub mod seeds;
pub mod builder;
pub mod state;
