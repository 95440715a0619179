//! Grid simulation engine of a maze-chase arcade game: a player walks a
//! walled maze and eats pellets while a ghost wanders after it.
//!
//! Every operation is specified over a mathematical model of the game
//! ([`model::GameView`]) and proved against it.

pub mod cell;
pub mod command;
pub mod direction;
pub mod game;
pub mod ghost;
pub mod laws;
pub mod layout;
pub mod maze;
pub mod model;
pub mod player;
pub mod random;
