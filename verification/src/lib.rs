//! The simulation core of an asteroid-field arcade game.
//!
//! A ship drifts among asteroids on a screen that wraps around, shoots them
//! to pieces, and loses a life whenever one of them hits it. This crate holds
//! the rules of that game and nothing of its window, keys or drawing.
//!
//! All quantities are fixed-point numbers: an `i64` counts millionths of a
//! unit, a second or a radian (see [`fixed`]). Directions are looked up in a
//! table that the caller supplies (see [`compass`]), so the crate needs no
//! trigonometry of its own.
//!
//! The state of a game is a [`states::World`]. Each system is a function that
//! takes the world by mutable reference; [`simulation::tick`] runs them in
//! their order. Every system asks that the world be well formed, which
//! [`states::World::is_wf`] tells, and says in its contract what it leaves of
//! the world. Properties that hold across systems are proved in [`laws`].

pub mod fixed;
pub mod compass;
pub mod helpers;
pub mod transforming;
pub mod ui;
pub mod asteroid;
pub mod bullet;
pub mod lifetime;
pub mod player;
pub mod spawner;
pub mod states;
pub mod collision;
pub mod simulation;
pub mod laws;
