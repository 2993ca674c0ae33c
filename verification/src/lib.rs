//! Core of a process inspector: what to ask of the operating system, in which
//! order, and what to show of its answers.

pub mod enumerate;
pub mod identifier;
pub mod memory;
pub mod name;
pub mod snapshot;
pub mod system;
pub mod terminate;
pub mod text;
