//! A tick-driven multiplayer snake arena: the world model, the simulation
//! engine, the lobby room, and the decisions taken by player and controller
//! sessions and by the game loop.
//!
//! `rules` states one tick over mathematical views; `game` implements it and
//! proves each phase against those statements; `laws` collects the
//! properties that every game keeps.

pub mod constants;
pub mod grid;
pub mod world;
pub mod rules;
pub mod state;
pub mod random;
pub mod error;
pub mod game;
pub mod room;
pub mod ids;
pub mod messages;
pub mod session;
pub mod connection;
pub mod docs;
pub mod laws;
