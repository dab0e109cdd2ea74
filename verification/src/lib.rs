//! A minimal arcade block-breaking round: a paddle deflects a ball into a
//! fixed grid of scoring blocks, with score and high score tracked across
//! rounds. The whole simulation is verified; the windowing, input and
//! rendering framework around it only feeds plain values in and draws the
//! prepared scene out.

pub mod units;
pub mod blocks;
pub mod collision;
pub mod state;
pub mod laws;
pub mod scene;
