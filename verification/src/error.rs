//! What can go wrong while a mesh is read and assembled.

use vstd::prelude::*;

verus! {

/// Said of a vertex position that does not read as a number.
pub const VERTEX_LABEL: &'static str = "Vertex position is invalid.";

/// Said of a texture coordinate that does not read as a number.
pub const TEXTURE_LABEL: &'static str = "Vertex texture position is invalid.";

/// Said of a vertex normal that does not read as a number.
pub const NORMAL_LABEL: &'static str = "Vertex normal is invalid.";

/// Said of a face corner that does not read as indices.
pub const POLYGON_LABEL: &'static str = "Polygon index is invalid.";

/// The two kinds of record that can fail to parse.
#[derive(Clone, Copy, PartialEq, Eq, Debug, Structural)]
pub enum ParseErrorKind {
    /// An operand of a numeric record is no number.
    Numeric,
    /// A corner of a face record names no index.
    Face,
}

/// A line of the file that could not be read.
#[derive(PartialEq, Eq, Debug)]
pub struct ParseError {
    pub kind: ParseErrorKind,
    /// The number of the line, the first line being line 1.
    pub line: usize,
    /// Says in words which record was at fault.
    pub label: String,
}

/// A `ParseError` with its label as characters.
pub struct ParseErrorView {
    pub kind: ParseErrorKind,
    pub line: usize,
    pub label: Seq<char>,
}

impl View for ParseError {
    type V = ParseErrorView;

    open spec fn view(&self) -> ParseErrorView {
        ParseErrorView { kind: self.kind, line: self.line, label: self.label@ }
    }
}

/// The error, if any, that a result carries.
pub open spec fn failure_of(r: Result<(), ParseError>) -> Option<ParseErrorView> {
    match r {
        Ok(_) => None,
        Err(e) => Some(e@),
    }
}

/// The error of a face record on line `line`.
pub open spec fn face_failure(line: usize) -> ParseErrorView {
    ParseErrorView { kind: ParseErrorKind::Face, line, label: POLYGON_LABEL@ }
}

/// The error of a numeric record on line `line`, under the caller's label.
pub open spec fn numeric_failure(line: usize, label: Seq<char>) -> ParseErrorView {
    ParseErrorView { kind: ParseErrorKind::Numeric, line, label }
}

impl ParseError {
    /// The error of a numeric record on line `line`.
    pub fn numeric(line: usize, label: &str) -> (e: ParseError)
        ensures
            e@ == numeric_failure(line, label@),
    {
        ParseError { kind: ParseErrorKind::Numeric, line, label: label.to_owned() }
    }

    /// The error of a face record on line `line`.
    pub fn face(line: usize) -> (e: ParseError)
        ensures
            e@ == face_failure(line),
    {
        ParseError { kind: ParseErrorKind::Face, line, label: POLYGON_LABEL.to_owned() }
    }
}

/// A corner of a triangle whose normal cannot be looked up.
#[derive(Clone, Copy, PartialEq, Eq, Debug, Structural)]
pub struct IndexAlignmentError {
    /// Where in the vertex-index stream the corner stands.
    pub position: usize,
}

} // verus!
