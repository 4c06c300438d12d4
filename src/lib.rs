//! Wraps a command, echoes its output line by line, and freezes the command's
//! process tree whenever a line carries a trigger keyword, until the operator
//! resumes it.

pub mod children;
pub mod controller;
pub mod keywords;
pub mod monitor;
pub mod signals;
