//! A turn-based tank arena whose participants are driven by small bytecode
//! programs, each run on its own register machine.

pub mod arena;
pub mod geom;
pub mod machine;
pub mod memory;
pub mod program;
pub mod report;
pub mod rules;
pub mod tank;
