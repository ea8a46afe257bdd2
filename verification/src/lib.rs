//! Core of a terminal music player: the playback-engine state machine, the
//! play-queue and playlist reducer, and the library-snapshot synchronizer that
//! re-points index-based references whenever the track library is rescanned.
//!
//! Everything here is pure state and decision logic, verified with Verus.
//! Audio output, file scanning, tag reading and terminal drawing live outside
//! the library and talk to it through plain values.

pub mod state;
pub mod strutil;
pub mod track;
pub mod library;
pub mod worker;
pub mod app;
pub mod sync;
pub mod watcher;
pub mod persist;
pub mod lyrics;
pub mod panes;
