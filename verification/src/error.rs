use vstd::prelude::*;

verus! {

/// The main error type of the library's surroundings: what went wrong while
/// bringing an image in or out. The payload is the underlying error's text.
#[derive(Debug, Clone)]
pub enum DitherpunkerError {
    /// An image could not be read or decoded.
    ImageDecode(String),
    /// An image could not be encoded or written.
    ImageEncode(String),
    /// A file could not be read or written.
    Io(String),
}

impl DitherpunkerError {
    /// The underlying error's text.
    pub fn message(&self) -> (m: &String)
        ensures
            *self matches DitherpunkerError::ImageDecode(s) ==> m == s,
            *self matches DitherpunkerError::ImageEncode(s) ==> m == s,
            *self matches DitherpunkerError::Io(s) ==> m == s,
    {
        match self {
            DitherpunkerError::ImageDecode(s) => s,
            DitherpunkerError::ImageEncode(s) => s,
            DitherpunkerError::Io(s) => s,
        }
    }
}

} // verus!
