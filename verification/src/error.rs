//! Error types for loading and rendering.

use vstd::prelude::*;

verus! {

/// The one structural validation failure of the markup decoder: a paint
/// property element held no recognized brush child.
#[derive(Clone, Copy, PartialEq, Eq, Structural, Debug)]
pub enum ParseError {
    MissingBrush,
}

/// A failure reported by a rendering backend.
#[derive(Clone, Copy, PartialEq, Eq, Structural, Debug)]
pub enum RenderError {
    Unknown,
}

/// Any failure of loading or rendering a package.
#[derive(Clone, Copy, PartialEq, Eq, Structural, Debug)]
pub enum Error {
    /// An entry could not be read out of the container.
    Io,
    /// A part's bytes were not valid UTF-8.
    Utf8,
    /// A part's UTF-16 bytes were malformed, or their count was odd.
    Utf16,
    /// The container could not be opened or an entry was absent.
    Zip,
    /// A part was not well-formed XML.
    Xml,
    /// The markup decoder failed ([`ParseError`]).
    Xps(ParseError),
    /// A rendering backend failed ([`RenderError`]).
    Render(RenderError),
}

impl From<ParseError> for Error {
    fn from(e: ParseError) -> (r: Error) {
        Error::Xps(e)
    }
}

impl vstd::std_specs::convert::FromSpecImpl<ParseError> for Error {
    open spec fn obeys_from_spec() -> bool {
        true
    }

    open spec fn from_spec(e: ParseError) -> Error {
        Error::Xps(e)
    }
}

impl From<RenderError> for Error {
    fn from(e: RenderError) -> (r: Error) {
        Error::Render(e)
    }
}

impl vstd::std_specs::convert::FromSpecImpl<RenderError> for Error {
    open spec fn obeys_from_spec() -> bool {
        true
    }

    open spec fn from_spec(e: RenderError) -> Error {
        Error::Render(e)
    }
}

} // verus!
