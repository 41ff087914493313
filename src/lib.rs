//! Parametric gear outlines: the segment topology of a gear path and the
//! text form of a path element.
pub mod outline;
pub mod text;
