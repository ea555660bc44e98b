//! Gesture bindings: a finger count and a direction, with a display form
//! and a canonical `<fingers>+<direction>` encoding.

pub mod decimal;
pub mod direction;
pub mod error;
pub mod gesture;
pub mod text;
