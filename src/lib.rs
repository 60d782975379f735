//! A kinematic character controller in fixed-point arithmetic: a
//! move-and-slide solver over a caller-supplied sweep, grounded detection
//! and ground snapping for a character body, and a movement state machine
//! with its parameter tables, driven one fixed tick at a time.
use vstd::prelude::*;

pub mod character;
pub mod character_body;
pub mod fixed;
pub mod input;
pub mod player;
pub mod slide;
pub mod state_machine;

verus! {

} // verus!
