//! Control core of a network-attached hobby-servo device.
//!
//! The crate holds the decisions of the device and none of its I/O: the
//! angle-to-duty mapping, the HTTP router, the serial line parser, the
//! single-slot command bus, and the state machines that drive the wireless
//! link, the boot sequence and the HTTP connection loop. Every function is
//! verified against the specification functions that sit beside it.

pub mod command;
pub mod http_server;
pub mod http_task;
pub mod link;
pub mod serial_cmd;
pub mod servo;
pub mod text;
