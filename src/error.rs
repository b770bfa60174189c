//! The errors that loading and looking up configurations report.
use vstd::prelude::*;

verus! {

/// What went wrong, in broad terms.
#[derive(Clone, Copy, Debug, PartialEq, Eq, Structural)]
pub enum ErrorKind {
    /// A required input is absent: a file without extension, or a name that
    /// no registry holds.
    MissingValue,
    /// An input has the wrong shape: an extension that is not valid text.
    FormatError,
    /// An extension that is valid text but names no supported format.
    UnimplementedFormat,
    /// Anything else: failed reads, parse failures, duplicate names.
    Other,
}

/// An error: its kind and a human-readable description.
#[derive(Clone, Debug, PartialEq, Eq)]
pub struct Error {
    pub kind: ErrorKind,
    pub description: String,
}

/// The description that an error made from a bare kind carries.
pub open spec fn kind_description(kind: ErrorKind) -> Seq<char> {
    match kind {
        ErrorKind::MissingValue => "missing value"@,
        ErrorKind::FormatError => "format error"@,
        ErrorKind::UnimplementedFormat => "unimplemented format"@,
        ErrorKind::Other => "other error"@,
    }
}

/// An error as kind and description text.
pub type ErrorView = (ErrorKind, Seq<char>);

impl View for Error {
    type V = ErrorView;

    open spec fn view(&self) -> ErrorView {
        (self.kind, self.description@)
    }
}

/// A result with its error seen as kind and description text.
pub open spec fn view_result<T>(r: Result<T, Error>) -> Result<T, ErrorView> {
    match r {
        Ok(t) => Ok(t),
        Err(e) => Err(e@),
    }
}

impl Error {
    /// An error of the given kind with the given description.
    pub fn new(kind: ErrorKind, description: String) -> (r: Error)
        ensures
            r.kind == kind,
            r.description@ == description@,
    {
        Error { kind, description }
    }

    /// An error of the given kind, described by the kind alone.
    pub fn from_kind(kind: ErrorKind) -> (r: Error)
        ensures
            r.kind == kind,
            r.description@ == kind_description(kind),
    {
        let description = match kind {
            ErrorKind::MissingValue => "missing value".to_owned(),
            ErrorKind::FormatError => "format error".to_owned(),
            ErrorKind::UnimplementedFormat => "unimplemented format".to_owned(),
            ErrorKind::Other => "other error".to_owned(),
        };
        Error { kind, description }
    }

    /// The kind of this error.
    pub fn kind(&self) -> (r: ErrorKind)
        ensures
            r == self.kind,
    {
        self.kind
    }

    /// The description of this error.
    pub fn description(&self) -> (r: &str)
        ensures
            r@ == self.description@,
    {
        self.description.as_str()
    }
}

} // verus!
