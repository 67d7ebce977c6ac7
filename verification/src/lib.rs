//! Verified kernels of VegaFusion: extents, Vega expression functions on
//! columns, calendar date parts, and the message plan of the chart driver.
pub mod calendar;
pub mod date_parts;
pub mod extent;
pub mod is_valid;
pub mod length;
pub mod comm;
