//! A tile-based settlement simulation: a grid of cells holding entities and
//! effects, a cursor that processes one cell per tick, and a ledger of the
//! commodities that the entities produce and consume.

pub mod effects;
pub mod entities;
pub mod map;
pub mod production;
