//! Type-directed, partitioned transfer of tabular query results into columnar storage.
//!
//! A source yields rows partition by partition, a destination appends them into
//! columns, and a plan that is resolved once per transfer says how each column's
//! values travel between the two.

pub mod data_order;
pub mod destinations;
pub mod dispatcher;
pub mod errors;
pub mod layout;
pub mod sources;
pub mod sql;
pub mod typesystem;
pub mod value;
