//! Conversion of font glyph outlines (typed point lists) into Bézier curve
//! structures, and serialization of an edit session's paths into
//! human-readable drawing code and a binary property-list interchange
//! payload.

pub mod code;
pub mod geometry;
pub mod interchange;
pub mod outline;
pub mod session;
