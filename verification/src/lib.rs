//! Build-time compiler for vector icon sets.
//!
//! The library turns a collection of icon source files (small SVG documents,
//! one icon each) into generated Rust source: one closed `Shape` enumeration
//! per visual style, together with a lookup from each variant to its path
//! data.  Reading the files and writing the generated code is left to the
//! thin binary around the library; everything that decides what the output
//! looks like lives here.

pub mod compile;
pub mod emit;
pub mod extract;
pub mod markup;
pub mod name;
pub mod order;
pub mod scan;
pub mod text;

use vstd::prelude::*;

verus! {

/// Why a compiler run fails.  Every variant is a fatal, build-breaking
/// condition: the tool favors failing fast over silently dropping icons.
#[derive(Clone, Copy, Debug, PartialEq, Eq, Structural)]
pub enum CompileError {
    /// An icon source has no root `svg` element.
    MissingRoot,
    /// The root element has no `viewBox` attribute.
    MissingViewBox,
    /// A `path` element has no `d` attribute.
    MissingDraw,
    /// A style's source directory holds no icon source file.
    NoIcons,
    /// Two file names normalize to the same identifier.
    DuplicateName,
}

/// One discovered icon source file: its base file name and its raw content.
pub struct SourceFile {
    pub name: String,
    pub content: String,
}

impl View for SourceFile {
    type V = SourceFileV;

    open spec fn view(&self) -> SourceFileV {
        SourceFileV { name: self.name@, content: self.content@ }
    }
}

impl Clone for SourceFile {
    fn clone(&self) -> (r: Self)
        ensures
            r == *self,
    {
        SourceFile { name: self.name.clone(), content: self.content.clone() }
    }
}

/// The mathematical value of a [`SourceFile`]: both fields as character
/// sequences.
pub struct SourceFileV {
    pub name: Seq<char>,
    pub content: Seq<char>,
}

/// The views of a list of source files.
pub open spec fn files_view(v: Seq<SourceFile>) -> Seq<SourceFileV> {
    v.map_values(|f: SourceFile| f@)
}

} // verus!
