//! The options of a run, once the command line has been read.

use crate::errors::{fails_with, ErrorView, WavToFlacError};
use crate::format::Format;
use vstd::prelude::*;
use vstd::string::*;

verus! {

/// How much of the run is reported.
#[derive(Debug, Copy, Clone, PartialEq, Eq, Structural)]
pub enum LogLevel {
    Off,
    Debug,
    Info,
}

/// What the encoder is asked for. The same for every job of a run.
#[derive(Debug, Copy, Clone, PartialEq, Eq)]
pub struct EncodingOptions {
    pub format: Format,
    /// Used by the formats that can be compressed to a level.
    pub compression: u8,
    /// The sample rate to convert to; `None` keeps the source's.
    pub sample_rate: Option<u32>,
}

/// The options of a run.
#[derive(Debug, Clone, PartialEq, Eq)]
pub struct Opts {
    /// Silence all output.
    pub quiet: bool,
    /// Report in detail.
    pub debug: bool,
    pub format: Format,
    /// The FLAC compression level asked for.
    pub compression: Option<u8>,
    /// The sample rate asked for.
    pub sample_rate: Option<u32>,
    /// The file name under which cover art lies beside the audio files.
    pub cover: String,
    /// Only show what would be done.
    pub dry_run: bool,
    /// The directory that holds the files to convert.
    pub src: String,
    /// The directory that receives the converted files.
    pub dest: String,
}

impl Opts {
    /// Accepts the options where both roots are directories, and gives them
    /// back unchanged. Otherwise names the first root that is none, the
    /// source before the destination.
    pub fn validate(self, src_is_directory: bool, dest_is_directory: bool) -> (checked: Result<
        Opts,
        WavToFlacError,
    >)
        ensures
            src_is_directory && dest_is_directory ==> checked == Ok::<Opts, WavToFlacError>(self),
            !src_is_directory ==> fails_with(checked, ErrorView::NotADirectory(self.src@)),
            src_is_directory && !dest_is_directory ==> fails_with(
                checked,
                ErrorView::NotADirectory(self.dest@),
            ),
    {
        match Opts::validate_directory(self.src.as_str(), src_is_directory) {
            Err(error) => Err(error),
            Ok(()) => match Opts::validate_directory(self.dest.as_str(), dest_is_directory) {
                Err(error) => Err(error),
                Ok(()) => Ok(self),
            },
        }
    }

    /// Quiet wins over debug; without either, the level is `Info`.
    pub fn log_level(&self) -> (level: LogLevel)
        ensures
            level == if self.quiet {
                LogLevel::Off
            } else if self.debug {
                LogLevel::Debug
            } else {
                LogLevel::Info
            },
    {
        if self.quiet {
            LogLevel::Off
        } else if self.debug {
            LogLevel::Debug
        } else {
            LogLevel::Info
        }
    }

    /// Whether progress is shown: not in a quiet run, and not where there
    /// is nothing to convert.
    pub fn shows_progress(&self, nb_files: usize) -> (shown: bool)
        ensures
            shown == (!self.quiet && nb_files != 0),
    {
        !self.quiet && nb_files != 0
    }

    /// Turns what is known of `directory` into a verdict on it.
    pub fn validate_directory(directory: &str, is_directory: bool) -> (checked: Result<
        (),
        WavToFlacError,
    >)
        ensures
            is_directory ==> checked is Ok,
            !is_directory ==> fails_with(checked, ErrorView::NotADirectory(directory@)),
    {
        if is_directory {
            Ok(())
        } else {
            Err(WavToFlacError::NotADirectory(String::from_str(directory)))
        }
    }

    /// The compression level that was asked for and will not be used,
    /// because the format has none.
    pub fn ignored_compression(&self) -> (ignored: Option<u8>)
        ensures
            ignored == if self.format == Format::Flac {
                None
            } else {
                self.compression
            },
    {
        match self.format {
            Format::Flac => None,
            Format::Alac => self.compression,
        }
    }

    /// What the encoder is asked for under these options: the level given,
    /// or the default where none was.
    pub fn encoding_options(&self) -> (options: EncodingOptions)
        ensures
            options.format == self.format,
            options.sample_rate == self.sample_rate,
            options.compression == match self.compression {
                Some(level) => level,
                None => Format::DEFAULT_FLAC_COMPRESSION,
            },
    {
        EncodingOptions {
            format: self.format,
            compression: match self.compression {
                Some(level) => level,
                None => Format::DEFAULT_FLAC_COMPRESSION,
            },
            sample_rate: self.sample_rate,
        }
    }
}

} // verus!
