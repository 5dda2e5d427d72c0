//! A virtual-scrolling engine for very large tables.
//!
//! Only the visible window of a table is ever materialised. The crate keeps
//! track of which positions hold a rendered cell, reuses those cells across
//! redraws, turns wheel and touch input into scroll positions, normalises the
//! rows that a data source hands back, and maintains the column-width policy
//! that measuring the rendered cells feeds.
//!
//! The crate never touches a document itself. Every function takes plain
//! values (what was read from the host) and returns plain values (what is to
//! be written to it), so that all of the decisions are open to proof.

pub mod events;
pub mod metadata;
pub mod recycler;
pub mod sizes;
pub mod table;
pub mod thead;
