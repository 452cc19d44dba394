//! A line filter that echoes the regions of its input lying between a line
//! that matches a start pattern and a line that matches a stop pattern.
//!
//! `pattern` holds the compiled patterns, `engine` the depth-tracking state
//! machine that decides which lines are emitted, and `options` the settings of
//! one run.

pub mod engine;
pub mod options;
pub mod pattern;
