//! Real-time traffic micro-simulation core: the per-vehicle decision engine
//! and the 2D fixed-point geometry kernel it is built on.
//!
//! All lengths, positions and speeds are held in milli-units (one unit is
//! 1000 milli), so every quantity is an exact integer and every contract is
//! exact.  Unit direction vectors are scaled so that their magnitude is
//! close to [`num::UNIT`].
//!
//! The per-tick pipeline a scheduler runs for each vehicle: refresh its
//! broad-phase snapshot ([`physics::sync_object`]), query the neighbourhood
//! within [`systems::danger_query_radius`], decide and integrate
//! ([`systems::vehicle_decision`]), then advance the behavioural state
//! machine ([`systems::vehicle_state_update`]) and apply the structural
//! commands it returns after the parallel phase.

pub mod building;
pub mod decision;
pub mod input;
pub mod inputmap;
pub mod itinerary;
pub mod laws;
pub mod map;
pub mod motion;
pub mod num;
pub mod physics;
pub mod polygon;
pub mod pylon;
pub mod ray;
pub mod scanner;
pub mod spline;
pub mod systems;
pub mod v2;
pub mod v3;
pub mod vehicle;
