//! Verified core of a Polymarket market watcher: credential handling,
//! order-book maintenance, market navigation state and request building.

pub mod text;
pub mod foreign;
pub mod clob;
pub mod book;
pub mod sports;
pub mod gamma;
pub mod login;
pub mod keyed;
pub mod state;
