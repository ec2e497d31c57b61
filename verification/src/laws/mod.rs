//! What holds of the program as a whole.

pub mod access;
pub mod amounts;
pub mod calls;
pub mod deeds;
pub mod effects;
pub mod layouts;
pub mod payments;
pub mod payouts;
pub mod records;
pub mod refusals;
pub mod sequences;
