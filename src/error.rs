use vstd::prelude::*;

verus! {

/// The failures of the content pipeline.
pub enum BlogError {
    /// A file or directory could not be read; carries the cause.
    Io(String),
    /// The document holds fewer than two front-matter delimiters.
    MalformedDocument,
    /// The front matter did not decode into the three required fields;
    /// carries the cause.
    Metadata(String),
    /// No post derives the requested slug.
    NotFound,
    /// Highlighting a code block failed; carries the cause.
    Highlight(String),
}

impl BlogError {
    /// A short description of the failure.
    pub fn describe(&self) -> (r: String)
        ensures
            match self {
                BlogError::Io(cause) => r@ == cause@,
                BlogError::MalformedDocument => r@ == "malformed document"@,
                BlogError::Metadata(cause) => r@ == cause@,
                BlogError::NotFound => r@ == "Not Found"@,
                BlogError::Highlight(cause) => r@ == cause@,
            },
    {
        match self {
            BlogError::Io(cause) => cause.clone(),
            BlogError::MalformedDocument => String::from_str("malformed document"),
            BlogError::Metadata(cause) => cause.clone(),
            BlogError::NotFound => String::from_str("Not Found"),
            BlogError::Highlight(cause) => cause.clone(),
        }
    }
}

} // verus!
