//! Sector movers, light effects, map geometry and monster/weapon logic of the
//! DOOM play simulation, with their behaviour stated as Verus contracts.

pub mod fixed;
pub mod types;
pub mod random;
pub mod spec;
pub mod floor;
pub mod ceilng;
pub mod doors;
pub mod plats;
pub mod tick;
pub mod lights;
pub mod maputl;
pub mod enemy;
pub mod level;
pub mod inter;
pub mod mobj;
pub mod movement;
pub mod pspr;
pub mod hitscan;
pub mod spawn;
