//! Destinations: where the rows of a transfer go.

pub mod arrow_assoc;
pub mod arrow_destination;
