//! What can go wrong with a split, and how it is classified.

use vstd::prelude::*;
use vstd::string::*;
use crate::text::{decimal, push_decimal};

verus! {

/// The five classes of failure.
#[derive(Debug, Clone, Copy, PartialEq, Eq)]
pub enum ErrorKind {
    /// The request itself is unusable. Found before any work is done.
    InvalidArgument,
    /// The source document does not exist.
    NotFound,
    /// The document engine could not open, read or copy.
    DocumentError,
    /// A check on the output failed: the run's results cannot be relied on.
    VerificationError,
    /// The output directory or an output file could not be written.
    IoError,
}

/// A failure of a split. A run stops at the first one.
#[derive(Debug, Clone, PartialEq, Eq)]
pub enum SplitError {
    /// The request asks for no parts at all.
    ZeroParts,
    /// The intro range does not start on a page of the source.
    IntroStartOutOfRange { start: usize },
    /// The intro range ends before it starts, or beyond the source.
    IntroEndOutOfRange { end: usize },
    /// The request asks for `parts` parts of a body of only `body_pages`
    /// pages, and parts without a body page are not wanted.
    TooManyParts { parts: usize, body_pages: usize },
    /// There is no document at `path`.
    SourceNotFound { path: String },
    /// The source document has no pages.
    EmptySource,
    /// The engine could not open the source or create an output document.
    Engine { detail: String },
    /// The engine could not copy source page `page` into an output part.
    /// `intro` tells whether the page was copied as part of the intro.
    CopyFailed { page: usize, intro: bool, detail: String },
    /// After source page `page` was copied into part `part_index`, the
    /// output held `found` pages where `expected` were due. `intro` tells
    /// whether the page was copied as part of the intro.
    PageCountMismatch { part_index: usize, page: usize, intro: bool, expected: usize, found: usize },
    /// The part written to `path` has no bytes.
    EmptyArtifact { path: String },
    /// A command was answered with a reply that does not belong to it.
    UnexpectedReply,
    /// The output directory could not be created.
    OutputDirFailed { detail: String },
    /// An output part could not be written or found afterwards.
    SaveFailed { detail: String },
}

impl SplitError {
    /// The class of each failure.
    pub open spec fn kind_of(self) -> ErrorKind {
        match self {
            SplitError::ZeroParts => ErrorKind::InvalidArgument,
            SplitError::IntroStartOutOfRange { .. } => ErrorKind::InvalidArgument,
            SplitError::IntroEndOutOfRange { .. } => ErrorKind::InvalidArgument,
            SplitError::TooManyParts { .. } => ErrorKind::InvalidArgument,
            SplitError::SourceNotFound { .. } => ErrorKind::NotFound,
            SplitError::EmptySource => ErrorKind::DocumentError,
            SplitError::Engine { .. } => ErrorKind::DocumentError,
            SplitError::CopyFailed { .. } => ErrorKind::DocumentError,
            SplitError::PageCountMismatch { .. } => ErrorKind::VerificationError,
            SplitError::EmptyArtifact { .. } => ErrorKind::VerificationError,
            SplitError::UnexpectedReply => ErrorKind::VerificationError,
            SplitError::OutputDirFailed { .. } => ErrorKind::IoError,
            SplitError::SaveFailed { .. } => ErrorKind::IoError,
        }
    }

    /// The class this failure belongs to.
    pub fn kind(&self) -> (kind: ErrorKind)
        ensures
            kind == self.kind_of(),
    {
        match self {
            SplitError::ZeroParts
            | SplitError::IntroStartOutOfRange { .. }
            | SplitError::IntroEndOutOfRange { .. }
            | SplitError::TooManyParts { .. } => ErrorKind::InvalidArgument,
            SplitError::SourceNotFound { .. } => ErrorKind::NotFound,
            SplitError::EmptySource
            | SplitError::Engine { .. }
            | SplitError::CopyFailed { .. } => ErrorKind::DocumentError,
            SplitError::PageCountMismatch { .. }
            | SplitError::EmptyArtifact { .. }
            | SplitError::UnexpectedReply => ErrorKind::VerificationError,
            SplitError::OutputDirFailed { .. } | SplitError::SaveFailed { .. } => ErrorKind::IoError,
        }
    }

    /// The exit code a program ends with after this failure.
    pub fn exit_code(&self) -> (code: i32)
        ensures
            code == self.kind_of().exit_code_of(),
    {
        self.kind().exit_code()
    }

    /// The failure in words.
    pub open spec fn message_of(self) -> Seq<char> {
        match self {
            SplitError::ZeroParts => "Invalid parts value, must be a positive integer"@,
            SplitError::IntroStartOutOfRange { start } => "Invalid intro start page: "@ + decimal(start as nat),
            SplitError::IntroEndOutOfRange { end } => "Invalid intro end page: "@ + decimal(end as nat),
            SplitError::TooManyParts { parts, body_pages } => "Cannot split "@ + decimal(body_pages as nat)
                + " body pages into "@ + decimal(parts as nat) + " parts"@,
            SplitError::SourceNotFound { path } => "File not found at "@ + path@,
            SplitError::EmptySource => "Source PDF has no pages"@,
            SplitError::Engine { detail } => detail@,
            SplitError::CopyFailed { page, intro, detail } => "Failed to copy "@ + page_role(intro) + " page "@
                + decimal(page as nat) + ": "@ + detail@,
            SplitError::PageCountMismatch { page, intro, .. } => "Failed to verify page copy for "@ + page_role(
                intro,
            ) + " page "@ + decimal(page as nat),
            SplitError::EmptyArtifact { path } => "Output file "@ + path@ + " has zero size"@,
            SplitError::UnexpectedReply => "Unexpected reply to a command"@,
            SplitError::OutputDirFailed { detail } => detail@,
            SplitError::SaveFailed { detail } => "Failed to save output file: "@ + detail@,
        }
    }

    /// Puts the failure in words.
    pub fn message(&self) -> (text: String)
        ensures
            text@ == self.message_of(),
    {
        match self {
            SplitError::ZeroParts => String::from_str("Invalid parts value, must be a positive integer"),
            SplitError::IntroStartOutOfRange { start } => {
                let mut text: String = String::from_str("Invalid intro start page: ");
                push_decimal(&mut text, *start);
                text
            },
            SplitError::IntroEndOutOfRange { end } => {
                let mut text: String = String::from_str("Invalid intro end page: ");
                push_decimal(&mut text, *end);
                text
            },
            SplitError::TooManyParts { parts, body_pages } => {
                let mut text: String = String::from_str("Cannot split ");
                push_decimal(&mut text, *body_pages);
                text.append(" body pages into ");
                push_decimal(&mut text, *parts);
                text.append(" parts");
                text
            },
            SplitError::SourceNotFound { path } => {
                let mut text: String = String::from_str("File not found at ");
                text.append(path.as_str());
                text
            },
            SplitError::EmptySource => String::from_str("Source PDF has no pages"),
            SplitError::Engine { detail } => detail.clone(),
            SplitError::CopyFailed { page, intro, detail } => {
                let mut text: String = String::from_str("Failed to copy ");
                text.append(page_role_text(*intro));
                text.append(" page ");
                push_decimal(&mut text, *page);
                text.append(": ");
                text.append(detail.as_str());
                text
            },
            SplitError::PageCountMismatch { page, intro, .. } => {
                let mut text: String = String::from_str("Failed to verify page copy for ");
                text.append(page_role_text(*intro));
                text.append(" page ");
                push_decimal(&mut text, *page);
                text
            },
            SplitError::EmptyArtifact { path } => {
                let mut text: String = String::from_str("Output file ");
                text.append(path.as_str());
                text.append(" has zero size");
                text
            },
            SplitError::UnexpectedReply => String::from_str("Unexpected reply to a command"),
            SplitError::OutputDirFailed { detail } => detail.clone(),
            SplitError::SaveFailed { detail } => {
                let mut text: String = String::from_str("Failed to save output file: ");
                text.append(detail.as_str());
                text
            },
        }
    }
}

/// What a page is called in a message: `intro` where it was copied as part
/// of the intro, `content` where it was copied as part of the body.
pub open spec fn page_role(intro: bool) -> Seq<char> {
    if intro {
        "intro"@
    } else {
        "content"@
    }
}

fn page_role_text(intro: bool) -> (text: &'static str)
    ensures
        text@ == page_role(intro),
{
    if intro {
        "intro"
    } else {
        "content"
    }
}

impl ErrorKind {
    /// The exit code of each class: 2 for an unusable request, 3 for what the
    /// file system refused, 4 for what went wrong inside the documents.
    pub open spec fn exit_code_of(self) -> int {
        match self {
            ErrorKind::InvalidArgument => 2,
            ErrorKind::NotFound => 3,
            ErrorKind::IoError => 3,
            ErrorKind::DocumentError => 4,
            ErrorKind::VerificationError => 4,
        }
    }

    /// The exit code a program ends with after a failure of this class.
    pub fn exit_code(&self) -> (code: i32)
        ensures
            code == self.exit_code_of(),
    {
        match self {
            ErrorKind::InvalidArgument => 2,
            ErrorKind::NotFound | ErrorKind::IoError => 3,
            ErrorKind::DocumentError | ErrorKind::VerificationError => 4,
        }
    }
}

} // verus!
