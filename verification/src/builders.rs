//! Builders of command lines for particular tools.

pub mod ar;
pub mod c;
