//! A two-party escrow: a maker locks tokens of one mint in a vault owned by a
//! program-derived record, and either a taker settles the swap or the maker
//! takes the tokens back.

pub mod key;
pub mod derive;
pub mod state;
pub mod instructions;
pub mod laws;
