//! The core of a wireframe renderer: a reader for mesh descriptions and the
//! pixel operations that draw a mesh's edges into an RGBA frame.

pub mod draw;
pub mod frame;
pub mod pattern;
pub mod number;
pub mod record;
pub mod model;
