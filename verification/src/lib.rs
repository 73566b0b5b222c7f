//! Reading Wavefront OBJ meshes: the records of the file, the triangles of its
//! faces, and the vertex buffer that a renderer uploads.
//!
//! A file is read line by line into a [`Model`]. The scalars of a mesh are of
//! any type that can be copied; the caller says how one is read from its text.

pub mod assemble;
pub mod attribute;
pub mod display;
pub mod error;
pub mod indices;
pub mod loading;
pub mod model;
pub mod number;
pub mod polygon;
pub mod reader;
pub mod text;

pub use crate::attribute::{detect_obj_attribute, ObjAttribute};
pub use crate::display::DisplayState;
pub use crate::error::{IndexAlignmentError, ParseError, ParseErrorKind};
pub use crate::indices::Indices;
pub use crate::model::Model;
pub use crate::polygon::Polygon;
pub use crate::reader::read_one_line;
