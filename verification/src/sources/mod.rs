//! Sources: where the rows of a transfer come from.

pub mod mysql;
