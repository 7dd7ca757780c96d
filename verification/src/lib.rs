//! The decision core of a motor-racing trivia bot: the round of questions,
//! the score ledgers, and the replies to lookup commands. Everything here
//! works on plain values; sending and receiving is left to the caller.

pub mod text;
pub mod chance;
pub mod ledger;
pub mod questions;
pub mod records;
pub mod handler;
