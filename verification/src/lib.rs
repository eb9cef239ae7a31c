//! Game rules of a cooperative asteroid shooter: who fires and when, which
//! shots and rocks die, how the score moves, when the round restarts, and how
//! keyboard state and sound cues are kept.
//!
//! The continuous physics of the game (positions, velocities, collision
//! distances) is floating point and belongs to the embedding application.
//! The library is generic over the physical body `B` of an actor; whatever
//! needs to look inside a body reaches the library as a function argument,
//! and every contract here holds for every such function.

pub mod input;
pub mod sound;
pub mod actor;
pub mod clock;
pub mod collision;
pub mod firing;
pub mod state;
