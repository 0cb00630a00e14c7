//! An escrow ledger for crowdfunding: donors deposit toward a target before a
//! deadline; afterwards the beneficiary or the donors may withdraw, depending
//! on whether the target was reached.

pub mod address;
pub mod amount;
pub mod campaign;
pub mod laws;

pub use address::Address;
pub use amount::Amount;
pub use campaign::{Crowdfunding, Error, Status, Transfer};
