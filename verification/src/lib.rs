//! The deciding part of a scheduler that holds games to a frame rate.
//!
//! The scheduler watches how long the frames of the games in the foreground
//! take, and moves the clusters of processor cores between their default
//! state and a game mode, in which it bounds their frequencies. This library
//! holds what the scheduler decides: which frame times count ([`buffer`],
//! [`looper`]), what is written to the control files of a cluster
//! ([`policy`], [`insider`]), which of those writes are worth making and
//! which worker makes them ([`write_pool`]), and what the configuration says
//! ([`config`]). It reads no file and starts no thread; a caller does that
//! and hands in what it has read.

pub mod assoc;
pub mod buffer;
pub mod config;
pub mod document;
pub mod error;
pub mod hint;
pub mod insider;
pub mod looper;
pub mod policy;
pub mod sensor;
pub mod sort;
pub mod text;
pub mod write_pool;
