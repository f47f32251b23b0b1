//! The closed set of target formats.

use crate::errors::{fails_with, ErrorView, WavToFlacError};
use vstd::prelude::*;
use vstd::string::*;

verus! {

/// A lossless target format.
#[derive(Debug, Copy, Clone, PartialEq, Eq, Structural)]
pub enum Format {
    Flac,
    Alac,
}

impl Format {
    /// The compression level used for FLAC when none is asked for.
    pub const DEFAULT_FLAC_COMPRESSION: u8 = 4;

    /// The name by which the encoder knows the codec.
    pub open spec fn codec_text(self) -> Seq<char> {
        match self {
            Format::Flac => "flac"@,
            Format::Alac => "alac"@,
        }
    }

    /// The extension that files of this format carry, without the dot.
    pub open spec fn extension_text(self) -> Seq<char> {
        match self {
            Format::Flac => "flac"@,
            Format::Alac => "m4a"@,
        }
    }

    /// The format that a codec name stands for, if it is one.
    pub open spec fn parse(text: Seq<char>) -> Option<Format> {
        if text == "flac"@ {
            Some(Format::Flac)
        } else if text == "alac"@ {
            Some(Format::Alac)
        } else {
            None
        }
    }

    /// The name by which the encoder knows the codec.
    pub fn codec_name(&self) -> (name: &'static str)
        ensures
            name@ == self.codec_text(),
    {
        match self {
            Format::Flac => "flac",
            Format::Alac => "alac",
        }
    }

    /// The extension that files of this format carry, without the dot.
    pub fn extension(&self) -> (ext: &'static str)
        ensures
            ext@ == self.extension_text(),
    {
        match self {
            Format::Flac => "flac",
            Format::Alac => "m4a",
        }
    }

    /// Reads a codec name. Any text but the two names is refused, and the
    /// error holds the text.
    pub fn from_str(s: &str) -> (parsed: Result<Format, WavToFlacError>)
        ensures
            match Format::parse(s@) {
                Some(format) => parsed == Ok::<Format, WavToFlacError>(format),
                None => fails_with(parsed, ErrorView::UnsupportedFormat(s@)),
            },
    {
        let name = String::from_str(s);
        if name == String::from_str("flac") {
            Ok(Format::Flac)
        } else if name == String::from_str("alac") {
            Ok(Format::Alac)
        } else {
            Err(WavToFlacError::UnsupportedFormat(name))
        }
    }
}

/// Parsing a codec name gives back the format that bears it.
pub proof fn lemma_codec_name_parses(format: Format)
    ensures
        Format::parse(format.codec_text()) == Some(format),
{
    reveal_strlit("flac");
    reveal_strlit("alac");
    assert("flac"@[0] != "alac"@[0]);
}

} // verus!
