//! Simulation core of a tick-driven falling-block puzzle for a small
//! monochrome display: piece shapes and rotations, the play field with
//! collision and row clearing, the obstacle-cutting blade, the scripted
//! narrator, and the mode state machine that ties one level together.

pub mod blade;
pub mod ctx;
pub mod game;
pub mod gameover;
pub mod gfx;
pub mod input;
pub mod intro;
pub mod narrator;
pub mod pieces;
pub mod random;
pub mod tile;
pub mod timer;
