//! Collections shared by the threads of the virtual machine.

pub mod once;
pub mod safe_point;
