//! The rules of the Indie Games Protocol, an on-chain program that keeps game
//! titles, player accounts, a price oracle and ranked games with their escrow.
//!
//! Every handler of the program is a function from what the runtime hands in
//! (see [`runtime::Invocation`]) to a result and a list of effects (see
//! [`runtime::Effects`]) that are to be carried out in order.

pub mod codec;
pub mod constants;
pub mod cpi;
pub mod error;
pub mod helpers;
pub mod instruction;
pub mod laws;
pub mod processor;
pub mod runtime;
pub mod state;
