//! Vector arithmetic, and examples from comma-separated records.

pub mod csv_data;
pub mod math;
pub mod order;
