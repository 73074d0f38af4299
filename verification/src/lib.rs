//! Core combat-simulation engine for a tower-defense arena.
//!
//! Agents (turrets, enemies, healers, beam emitters) acquire targets,
//! rotate toward them, fire projectiles or beams, resolve collisions,
//! apply damage and healing, and gain experience that scales their
//! stats.  All continuous quantities (angles, positions, health,
//! durations) are modelled as scaled integers so that every rule of
//! the simulation is stated and proved exactly.

pub mod aim;
pub mod angle;
pub mod beam;
pub mod collision;
pub mod events;
pub mod expfp;
pub mod geom;
pub mod healer;
pub mod health;
pub mod homing;
pub mod level;
pub mod motion;
pub mod persist;
pub mod progression;
pub mod rng;
pub mod score;
pub mod spawner;
pub mod tick;
pub mod weapon;
pub mod world;
