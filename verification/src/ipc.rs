//! What crosses the operator socket: verbs, answers and framed lines.

pub mod framing;
pub mod protocol;
