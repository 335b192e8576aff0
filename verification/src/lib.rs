//! A journal of "echoes": plain notes, meditations, tasks and workouts kept
//! day by day, with the rules that govern them.

pub mod calendar;
pub mod ids;
pub mod model;
pub mod text;
pub mod config;
pub mod timeline;
pub mod storage;
pub mod bell;
pub mod signpost;
