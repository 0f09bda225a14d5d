//! A narrative dialogue-script interpreter.
//!
//! A library of named scripts is loaded once; each script is an ordered
//! sequence of typed instructions (dialogue lines, jumps, choices, quest
//! hooks, cues, animation triggers).  The interpreter walks one script at a
//! time, producing observable emissions (text to display, choices to offer,
//! log diagnostics) while preserving a resumable cursor position.

pub mod decode;
pub mod interp;
pub mod script;
pub mod topic_list;
