//! The simulation core of a two-player paddle-and-ball game: paddle and
//! ball motion, the collision test with reflection, and the events that
//! tie a ball leaving the field to the score and to the next serve.
//!
//! All quantities are integers. A length is counted in ticks, a billion
//! to the playfield unit; a time in microseconds; a velocity in ticks per
//! microsecond, which is a thousandth of a unit per second. With these a
//! velocity times a time is a length, without rounding.

pub mod geometry;
pub mod collision;
pub mod player;
pub mod events;
pub mod paddle;
pub mod ball;
pub mod serve;
pub mod scoring;
pub mod scoreboard;
pub mod game;
