//! The ways one generation attempt can fail.

use vstd::prelude::*;

verus! {

/// What went wrong in an attempt. A response with a non-success status is
/// not among them: it ends the attempt without an error.
#[derive(Clone, Copy, PartialEq, Eq, Debug, Structural)]
pub enum ErrorKind {
    /// No theme could be drawn: the catalog was empty.
    ThemeSelection,
    /// The request did not get through, or the body could not be read.
    Transport,
    /// The bytes received are not an image.
    Decode,
    /// An image operation failed, or the image has a channel count the
    /// filter does not handle.
    Filter,
    /// The directory or the file could not be written.
    Io,
}

/// The name an error kind goes by in a log line.
pub open spec fn kind_name(kind: ErrorKind) -> Seq<char> {
    match kind {
        ErrorKind::ThemeSelection => "theme selection"@,
        ErrorKind::Transport => "transport"@,
        ErrorKind::Decode => "decode"@,
        ErrorKind::Filter => "filter"@,
        ErrorKind::Io => "io"@,
    }
}

impl ErrorKind {
    /// The kind's name, for a log line.
    pub fn name(&self) -> (name: &'static str)
        ensures
            name@ == kind_name(*self),
    {
        match self {
            ErrorKind::ThemeSelection => "theme selection",
            ErrorKind::Transport => "transport",
            ErrorKind::Decode => "decode",
            ErrorKind::Filter => "filter",
            ErrorKind::Io => "io",
        }
    }
}

} // verus!
