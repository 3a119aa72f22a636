//! The failures that reading a post can end in.

use vstd::prelude::*;
use vstd::string::*;

verus! {

/// `std::io::Error`, carried through as an opaque value.
#[verifier::external_type_specification]
#[verifier::external_body]
pub struct ExIoError(std::io::Error);

/// Why a post could not be produced.
#[derive(Debug)]
pub enum BlogPostError {
    /// The file or directory could not be read.
    Io(std::io::Error),
    /// The header is not delimited, or its date does not parse.
    FrontmatterParse(String),
    /// A required header key is absent; the payload is the key.
    MissingField(String),
    /// Highlighting a code block failed.
    SyntaxHighlighting(String),
}

/// A `BlogPostError` with its texts as character sequences.
pub enum ErrorModel {
    Io,
    FrontmatterParse(Seq<char>),
    MissingField(Seq<char>),
    SyntaxHighlighting(Seq<char>),
}

impl View for BlogPostError {
    type V = ErrorModel;

    open spec fn view(&self) -> ErrorModel {
        match self {
            BlogPostError::Io(_) => ErrorModel::Io,
            BlogPostError::FrontmatterParse(m) => ErrorModel::FrontmatterParse(m@),
            BlogPostError::MissingField(k) => ErrorModel::MissingField(k@),
            BlogPostError::SyntaxHighlighting(m) => ErrorModel::SyntaxHighlighting(m@),
        }
    }
}

/// What `std::io::Error`'s `Display` writes for `e`; nothing is claimed of the text.
#[verifier::external_body]
fn io_error_text(e: &std::io::Error) -> (text: String) {
    e.to_string()
}

impl BlogPostError {
    /// The text that introduces each kind of failure.
    pub open spec fn prefix(self) -> Seq<char> {
        match self {
            BlogPostError::Io(_) => "IO error: "@,
            BlogPostError::FrontmatterParse(_) => "Failed to parse frontmatter: "@,
            BlogPostError::MissingField(_) => "Missing required field: "@,
            BlogPostError::SyntaxHighlighting(_) => "Syntax highlighting error: "@,
        }
    }

    /// The human-readable message: the kind's prefix, then the cause.
    pub fn message(&self) -> (text: String)
        ensures
            self.prefix().is_prefix_of(text@),
            match self {
                BlogPostError::Io(_) => true,
                BlogPostError::FrontmatterParse(m) => text@ == self.prefix() + m@,
                BlogPostError::MissingField(k) => text@ == self.prefix() + k@,
                BlogPostError::SyntaxHighlighting(m) => text@ == self.prefix() + m@,
            },
    {
        match self {
            BlogPostError::Io(e) => {
                let cause = io_error_text(e);
                String::from_str("IO error: ").concat(cause.as_str())
            },
            BlogPostError::FrontmatterParse(m) => String::from_str(
                "Failed to parse frontmatter: ",
            ).concat(m.as_str()),
            BlogPostError::MissingField(k) => String::from_str("Missing required field: ").concat(
                k.as_str(),
            ),
            BlogPostError::SyntaxHighlighting(m) => String::from_str(
                "Syntax highlighting error: ",
            ).concat(m.as_str()),
        }
    }
}

} // verus!
