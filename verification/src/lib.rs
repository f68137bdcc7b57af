//! Gameplay core of a two-paddle ball game.
//!
//! The crate holds the per-frame rules of the game and nothing else: how a
//! paddle follows its input axis, how a ball travels, how it bounces off the
//! walls and the paddles, and when a side has won the point. All quantities
//! are fixed-point numbers, so every frame is reproducible bit for bit, and
//! every routine is verified against a mathematical model over unbounded
//! integers.
//!
//! An embedding application owns the window, the input devices and the
//! clock. Once per frame it hands the axis values and the elapsed time to
//! [`World::tick`], or calls the four systems itself in the same order.

pub mod collision;
pub mod control;
pub mod fixed;
pub mod frame;
pub mod laws;
pub mod motion;
pub mod scan;
pub mod scoring;
pub mod state;

pub use crate::fixed::{Fixed, SCALE};
pub use crate::frame::FrameReport;
pub use crate::state::{Arena, Ball, DegenerateState, Paddle, Phase, Side, World};
