//! Announces newly released catalog episodes exactly once.

pub mod catalog;
pub mod clock;
pub mod cmd;
pub mod cycle;
pub mod db;
pub mod laws;
pub mod releases;
pub mod schedule;
pub mod text;
pub mod utils;
