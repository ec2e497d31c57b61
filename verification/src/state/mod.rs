//! The data that the program keeps in its accounts.

pub mod character;
pub mod game;
pub mod oracle;
pub mod ranked_game;
pub mod user_account;
