use wav_to_flac::errors::WavToFlacError;
use wav_to_flac::format::Format;
use wav_to_flac::opts::{EncodingOptions, LogLevel, Opts};

fn options() -> Opts {
    Opts {
        quiet: false,
        debug: false,
        format: Format::Flac,
        compression: None,
        sample_rate: None,
        cover: "cover.jpg".to_string(),
        dry_run: false,
        src: "/music/wav".to_string(),
        dest: "/music/flac".to_string(),
    }
}

#[test]
fn options_pass_where_both_roots_are_directories() {
    assert_eq!(options().validate(true, true), Ok(options()));
}

#[test]
fn options_fail_on_the_first_root_that_is_no_directory() {
    assert_eq!(
        options().validate(false, true),
        Err(WavToFlacError::NotADirectory("/music/wav".to_string()))
    );
    assert_eq!(
        options().validate(false, false),
        Err(WavToFlacError::NotADirectory("/music/wav".to_string()))
    );
    assert_eq!(
        options().validate(true, false),
        Err(WavToFlacError::NotADirectory("/music/flac".to_string()))
    );
}

#[test]
fn a_directory_is_judged_by_what_is_known_of_it() {
    assert_eq!(Opts::validate_directory("/x", true), Ok(()));
    assert_eq!(
        Opts::validate_directory("/x", false),
        Err(WavToFlacError::NotADirectory("/x".to_string()))
    );
}

#[test]
fn quiet_wins_over_debug() {
    let mut opts = options();
    assert_eq!(opts.log_level(), LogLevel::Info);
    opts.debug = true;
    assert_eq!(opts.log_level(), LogLevel::Debug);
    opts.quiet = true;
    assert_eq!(opts.log_level(), LogLevel::Off);
    opts.debug = false;
    assert_eq!(opts.log_level(), LogLevel::Off);
}

#[test]
fn progress_is_hidden_when_quiet_or_idle() {
    let mut opts = options();
    assert!(opts.shows_progress(3));
    assert!(!opts.shows_progress(0));
    opts.quiet = true;
    assert!(!opts.shows_progress(3));
}

#[test]
fn compression_is_ignored_for_formats_without_levels() {
    let mut opts = options();
    opts.compression = Some(8);
    assert_eq!(opts.ignored_compression(), None);
    opts.format = Format::Alac;
    assert_eq!(opts.ignored_compression(), Some(8));
    opts.compression = None;
    assert_eq!(opts.ignored_compression(), None);
}

#[test]
fn encoding_options_default_the_compression_level() {
    let mut opts = options();
    assert_eq!(
        opts.encoding_options(),
        EncodingOptions { format: Format::Flac, compression: 4, sample_rate: None }
    );
    opts.compression = Some(9);
    opts.sample_rate = Some(44100);
    opts.format = Format::Alac;
    assert_eq!(
        opts.encoding_options(),
        EncodingOptions { format: Format::Alac, compression: 9, sample_rate: Some(44100) }
    );
}
