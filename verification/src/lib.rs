//! A safe handle layer over a data-acquisition driver: lifecycle of
//! acquisition tasks and their analog-input channels, structured errors for
//! the driver's numeric status codes, the buffered-string protocol with which
//! the driver reports variable-length channel-name lists, and the parser that
//! splits those lists into individual trimmed names.
//!
//! The driver itself is modelled by [`driver::Driver`], a registry that obeys
//! the driver's documented call/return contract; the task and channel layer
//! in [`task`] is verified against that model.

pub mod driver;
pub mod parse;
pub mod protocol;
pub mod status;
pub mod task;
