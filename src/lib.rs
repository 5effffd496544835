//! A side-scrolling arcade simulation: a player entity falls under gravity,
//! jumps on command and must avoid scrolling obstacle pairs, while a score
//! accumulates until the first contact with an obstacle.
//!
//! All lengths are fixed-point integers in tenths of a pixel, so every
//! constant of the game (a gravity of 0.3 px per tick, a jump impulse of
//! 10 px per tick, a floor at 460 px) is exact.
pub mod components;
pub mod physics;
pub mod animation;
pub mod collision;
pub mod registry;
pub mod systems;
pub mod simulation;
pub mod setup;
