//! The physics of a first-person block world, in fixed point.
//!
//! A player runs, jumps and swings on a grapple among axis-aligned blocks.
//! Each tick applies drag, the thrust of the held keys, gravity and the
//! grapple to the player's velocity, lets every block stop the player on the
//! axes on which it is in the way, caps the speed, and moves the player.
//!
//! All quantities are fixed-point numbers that saturate at the bounds of the
//! world (`fixed`, `trig`, `vec3`), so a tick is the same on every machine
//! and nothing overflows. `aabb` decides which axes a block blocks; `block`,
//! `grapple`, `player` and `universe` hold the world and advance it; `level`
//! and `master` hold the levels; `graphics`, `mesh` and `surface` lay the
//! world out as vertices, colours and triangles for a renderer.
//!
//! Every function states what it computes over spec functions; `aabb`,
//! `dynamics`, `graphics`, `pull`, `unit_length` and `universe` prove what
//! follows from them.

pub mod aabb;
pub mod block;
pub mod dynamics;
pub mod fixed;
pub mod graphics;
pub mod grapple;
pub mod level;
pub mod master;
pub mod mesh;
pub mod player;
pub mod pull;
pub mod surface;
pub mod trig;
pub mod unit_length;
pub mod universe;
pub mod vec3;
