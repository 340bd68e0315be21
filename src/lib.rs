//! Verified core of a terminal dashboard for virtual machines: parsers for
//! the hypervisor tool's list, address and descriptor outputs, and the
//! interaction state machine that drives the user interface.

pub mod text;
pub mod list;
pub mod address;
pub mod xml;
pub mod summary;
pub mod memory;
pub mod resources;
pub mod session;
