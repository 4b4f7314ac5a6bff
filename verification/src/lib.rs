//! Verified core of a practice-task generator: arithmetic exercises,
//! per-user operand-range configuration, and the relational store that
//! keeps users, their settings and the graded task history.

pub mod db;
pub mod math;
pub mod rng;
