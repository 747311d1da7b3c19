use vstd::prelude::*;

pub mod assets;
pub mod combat;
pub mod combatant;
pub mod events;
pub mod facade;
pub mod ids;
pub mod order;
pub mod present;
pub mod spatial;
pub mod surfaces;
pub mod text;
pub mod timeline;
pub mod trace;
pub mod units;
pub mod vfx;

verus! {
} // verus!
