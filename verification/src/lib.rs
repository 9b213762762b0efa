//! Segment logic for a status line: credentials and settings resolution,
//! pricing lookup, quota rendering and the text helpers they share.

pub mod text;
pub mod clock;
pub mod settings;
pub mod model;
pub mod segment;
pub mod quota;
