//! Session-scoped topology tracking, persistent continuity contracts, their
//! replay preparation and execution order, and the integer side of the
//! boundary-continuity solver: surface capabilities, boundary frames,
//! variable layouts, work budgets and meters.

pub mod capability;
pub mod content;
pub mod continuity;
pub mod contract;
pub mod decimal;
pub mod decorators;
pub mod execution;
pub mod frame;
pub mod id;
pub mod layout;
pub mod messages;
pub mod newton;
pub mod order;
pub mod replay;
pub mod resource;
pub mod text;
pub mod tracking;
