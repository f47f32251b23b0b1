//! What can go wrong, and how results are told apart.

use crate::format::Format;
use vstd::prelude::*;
use vstd::string::*;

verus! {

/// Why no tags could be derived for a file, or no cover embedded.
#[derive(Debug, Copy, Clone, PartialEq, Eq, Structural)]
pub enum TaggingFailure {
    /// The path has no parent directory.
    MissingParent,
    /// The path has no file name to take a stem from.
    MissingFileName,
    /// The file stem holds no space between track number and title.
    MissingSpace,
    /// What stands before the first space is no track number.
    InvalidTrackNumber,
    /// The cover's path has no extension.
    MissingExtension,
    /// The cover's extension is none of the image types that can be embedded.
    UnsupportedExtension,
}

/// An error of the conversion, with the text it is about.
#[derive(Debug, Clone, PartialEq, Eq)]
pub enum WavToFlacError {
    /// The path does not lead to a directory.
    NotADirectory(String),
    /// The name stands for no supported format.
    UnsupportedFormat(String),
    /// The job pool was used out of order; the text says how.
    ExecutorsError(String),
    /// The encoder did not succeed; the text is its diagnostic.
    EncoderError(String),
    /// Tags could not be derived from the path, or the extension, given.
    TaggingError(TaggingFailure, String),
    /// The tags could not be written; the text is the writer's diagnostic.
    TaggingWriteError(String),
}

/// An error as contracts see it: its texts as sequences of characters.
pub enum ErrorView {
    NotADirectory(Seq<char>),
    UnsupportedFormat(Seq<char>),
    ExecutorsError(Seq<char>),
    EncoderError(Seq<char>),
    TaggingError(TaggingFailure, Seq<char>),
    TaggingWriteError(Seq<char>),
}

impl View for WavToFlacError {
    type V = ErrorView;

    open spec fn view(&self) -> ErrorView {
        match self {
            WavToFlacError::NotADirectory(path) => ErrorView::NotADirectory(path@),
            WavToFlacError::UnsupportedFormat(name) => ErrorView::UnsupportedFormat(name@),
            WavToFlacError::ExecutorsError(text) => ErrorView::ExecutorsError(text@),
            WavToFlacError::EncoderError(text) => ErrorView::EncoderError(text@),
            WavToFlacError::TaggingError(failure, subject) => ErrorView::TaggingError(
                *failure,
                subject@,
            ),
            WavToFlacError::TaggingWriteError(text) => ErrorView::TaggingWriteError(text@),
        }
    }
}

/// Whether `result` is the failure whose error reads `error`.
pub open spec fn fails_with<T>(result: Result<T, WavToFlacError>, error: ErrorView) -> bool {
    match result {
        Ok(_) => false,
        Err(found) => found@ == error,
    }
}

/// A text or an error, as contracts see it.
pub open spec fn text_or_error(result: Result<String, WavToFlacError>) -> Result<
    Seq<char>,
    ErrorView,
> {
    match result {
        Ok(text) => Ok(text@),
        Err(error) => Err(error@),
    }
}

/// What was found, or the tagging failure that its absence is, with the text
/// it is about.
pub open spec fn required(
    found: Option<Seq<char>>,
    failure: TaggingFailure,
    subject: Seq<char>,
) -> Result<Seq<char>, ErrorView> {
    match found {
        Some(text) => Ok(text),
        None => Err(ErrorView::TaggingError(failure, subject)),
    }
}

impl TaggingFailure {
    /// What is said of the failure, before the text it is about.
    pub open spec fn prefix(self) -> Seq<char> {
        match self {
            TaggingFailure::MissingParent => "Failed to find parent directory for "@,
            TaggingFailure::MissingFileName => "Failed to extract filename from "@,
            TaggingFailure::MissingSpace => "Failed to find a space character in "@,
            TaggingFailure::InvalidTrackNumber => "Failed to extract track number from "@,
            TaggingFailure::MissingExtension => "Could not extract extension from "@,
            TaggingFailure::UnsupportedExtension => "Unsupported extension: "@,
        }
    }

    fn prefix_text(&self) -> (text: &'static str)
        ensures
            text@ == self.prefix(),
    {
        match self {
            TaggingFailure::MissingParent => "Failed to find parent directory for ",
            TaggingFailure::MissingFileName => "Failed to extract filename from ",
            TaggingFailure::MissingSpace => "Failed to find a space character in ",
            TaggingFailure::InvalidTrackNumber => "Failed to extract track number from ",
            TaggingFailure::MissingExtension => "Could not extract extension from ",
            TaggingFailure::UnsupportedExtension => "Unsupported extension: ",
        }
    }
}

impl ErrorView {
    /// The sentence that tells a reader of the error.
    pub open spec fn message(self) -> Seq<char> {
        match self {
            ErrorView::NotADirectory(path) => path + " is not a directory"@,
            ErrorView::UnsupportedFormat(name) => "Unsupported format: "@ + name
                + " (supported formats: "@ + Format::Flac.codec_text() + ", "@
                + Format::Alac.codec_text() + ")"@,
            ErrorView::ExecutorsError(text) => "Error in job pool operation: "@ + text,
            ErrorView::EncoderError(text) => "Error while encoding file: "@ + text,
            ErrorView::TaggingError(failure, subject) => {
                "Error while extracting data for tagging: "@ + failure.prefix() + subject
            },
            ErrorView::TaggingWriteError(text) => "Error while writing tags: "@ + text,
        }
    }
}

impl WavToFlacError {
    /// A second error that reads the same.
    pub fn duplicate(&self) -> (copy: WavToFlacError)
        ensures
            copy@ == self@,
    {
        match self {
            WavToFlacError::NotADirectory(path) => WavToFlacError::NotADirectory(path.clone()),
            WavToFlacError::UnsupportedFormat(name) => WavToFlacError::UnsupportedFormat(
                name.clone(),
            ),
            WavToFlacError::ExecutorsError(text) => WavToFlacError::ExecutorsError(text.clone()),
            WavToFlacError::EncoderError(text) => WavToFlacError::EncoderError(text.clone()),
            WavToFlacError::TaggingError(failure, subject) => WavToFlacError::TaggingError(
                *failure,
                subject.clone(),
            ),
            WavToFlacError::TaggingWriteError(text) => WavToFlacError::TaggingWriteError(
                text.clone(),
            ),
        }
    }

    /// The sentence that tells a reader of the error.
    pub fn message(&self) -> (text: String)
        ensures
            text@ == self@.message(),
    {
        match self {
            WavToFlacError::NotADirectory(path) => path.clone().concat(" is not a directory"),
            WavToFlacError::UnsupportedFormat(name) => {
                let mut text = String::from_str("Unsupported format: ");
                text.append(name.as_str());
                text.append(" (supported formats: ");
                text.append(Format::Flac.codec_name());
                text.append(", ");
                text.append(Format::Alac.codec_name());
                text.append(")");
                text
            },
            WavToFlacError::ExecutorsError(detail) => String::from_str(
                "Error in job pool operation: ",
            ).concat(detail.as_str()),
            WavToFlacError::EncoderError(detail) => String::from_str(
                "Error while encoding file: ",
            ).concat(detail.as_str()),
            WavToFlacError::TaggingError(failure, subject) => {
                let mut text = String::from_str("Error while extracting data for tagging: ");
                text.append(failure.prefix_text());
                text.append(subject.as_str());
                text
            },
            WavToFlacError::TaggingWriteError(detail) => String::from_str(
                "Error while writing tags: ",
            ).concat(detail.as_str()),
        }
    }
}

/// The values of the successes among `results`, in their order.
pub open spec fn successes_of<T, E>(results: Seq<Result<T, E>>) -> Seq<T>
    decreases results.len(),
{
    if results.len() == 0 {
        Seq::empty()
    } else {
        let before = successes_of(results.drop_last());
        match results.last() {
            Ok(value) => before.push(value),
            Err(_) => before,
        }
    }
}

/// The errors of the failures among `results`, in their order.
pub open spec fn failures_of<T, E>(results: Seq<Result<T, E>>) -> Seq<E>
    decreases results.len(),
{
    if results.len() == 0 {
        Seq::empty()
    } else {
        let before = failures_of(results.drop_last());
        match results.last() {
            Ok(_) => before,
            Err(error) => before.push(error),
        }
    }
}

/// Every result is counted once, as a success or as a failure.
pub proof fn lemma_partition_counts<T, E>(results: Seq<Result<T, E>>)
    ensures
        successes_of(results).len() + failures_of(results).len() == results.len(),
    decreases results.len(),
{
    if results.len() > 0 {
        lemma_partition_counts(results.drop_last());
    }
}

/// Splits results into the values of those that succeeded and the errors of
/// those that failed, each in the order in which they came.
pub fn partition_result<T, E>(results: Vec<Result<T, E>>) -> (parts: (Vec<T>, Vec<E>))
    ensures
        parts.0@ == successes_of(results@),
        parts.1@ == failures_of(results@),
{
    let mut successes: Vec<T> = Vec::new();
    let mut failures: Vec<E> = Vec::new();
    let ghost all = results@;
    for result in it: results
        invariant
            it.seq() == all,
            successes@ == successes_of(all.take(it.index() as int)),
            failures@ == failures_of(all.take(it.index() as int)),
    {
        proof {
            let k = it.index() as int;
            assert(all.take(k + 1).drop_last() =~= all.take(k));
        }
        match result {
            Ok(value) => successes.push(value),
            Err(error) => failures.push(error),
        }
    }
    proof {
        assert(all.take(all.len() as int) =~= all);
    }
    (successes, failures)
}

} // verus!
