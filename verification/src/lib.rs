//! Rules of a small farming game: a wallet, pigs that are bought and sold,
//! and a player that walks on a plane.

pub mod controller;
pub mod countdown;
pub mod entity;
pub mod input;
pub mod money;
pub mod setup;
pub mod spawner;
pub mod sweeper;
pub mod world;
