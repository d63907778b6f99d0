//! The cash inventory of a dispenser and the rule by which it picks the bills
//! that satisfy a withdrawal.

pub mod atm;
pub mod bundle;
pub mod decimal;
pub mod denomination;

pub use atm::{Atm, AtmError};
pub use bundle::Bundle;
pub use denomination::Denomination;
