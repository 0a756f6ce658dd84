//! Verified core of a classic snake game.
//!
//! The simulation is a pure, synchronous state machine: a toroidal grid
//! of [`cell::Cell`]s, a [`snake::Snake`] that follows its head under
//! directional control, and a [`game::Game`] that owns one snake, one
//! point (food) cell, the score and the difficulty pace.  Rendering,
//! audio and configuration I/O are external collaborators; they talk to
//! this crate only through plain values.

pub mod bmp;
pub mod cell;
pub mod game;
pub mod snake;

use vstd::prelude::*;

verus! {

} // verus!
