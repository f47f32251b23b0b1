use wav_to_flac::encoding::{
    convert, encode_result, encoder_arguments, encoding_arguments, finish_tagging, start_tagging,
    ConversionOutcome, EncoderExit, JobAction, JobEvent, JobState,
};
use wav_to_flac::errors::{TaggingFailure, WavToFlacError};
use wav_to_flac::files::FileMapping;
use wav_to_flac::format::Format;
use wav_to_flac::opts::EncodingOptions;
use wav_to_flac::summary::{summarize, RunSummary};
use wav_to_flac::tagging::{CoverChoice, MimeType};

fn flac() -> EncodingOptions {
    EncodingOptions { format: Format::Flac, compression: 4, sample_rate: None }
}

fn job(name: &str) -> FileMapping {
    FileMapping::new(
        format!("/src/Artist/Album/{}.wav", name),
        format!("/dst/Artist/Album/{}.flac", name),
    )
}

fn texts(items: &[&str]) -> Vec<String> {
    items.iter().map(|s| s.to_string()).collect()
}

fn encoder_failure(text: &str) -> ConversionOutcome {
    ConversionOutcome::Failure(WavToFlacError::EncoderError(text.to_string()))
}

fn out_of_order() -> ConversionOutcome {
    ConversionOutcome::Failure(WavToFlacError::ExecutorsError("unexpected event".to_string()))
}

#[test]
fn flac_arguments_carry_the_compression_level() {
    assert_eq!(encoding_arguments(&flac()), texts(&["-c:a", "flac", "-compression_level", "4"]));
    let options = EncodingOptions { format: Format::Flac, compression: 12, sample_rate: None };
    assert_eq!(encoding_arguments(&options), texts(&["-c:a", "flac", "-compression_level", "12"]));
    let options = EncodingOptions { format: Format::Flac, compression: 0, sample_rate: None };
    assert_eq!(encoding_arguments(&options), texts(&["-c:a", "flac", "-compression_level", "0"]));
}

#[test]
fn alac_arguments_carry_no_compression_level() {
    let options = EncodingOptions { format: Format::Alac, compression: 8, sample_rate: None };
    assert_eq!(encoding_arguments(&options), texts(&["-c:a", "alac"]));
}

#[test]
fn sample_rate_is_passed_for_every_format() {
    let options =
        EncodingOptions { format: Format::Alac, compression: 4, sample_rate: Some(44100) };
    assert_eq!(encoding_arguments(&options), texts(&["-c:a", "alac", "-ar", "44100"]));
    let options =
        EncodingOptions { format: Format::Flac, compression: 5, sample_rate: Some(96000) };
    assert_eq!(
        encoding_arguments(&options),
        texts(&["-c:a", "flac", "-ar", "96000", "-compression_level", "5"])
    );
}

#[test]
fn encoder_is_given_source_clean_metadata_and_target() {
    let options =
        EncodingOptions { format: Format::Flac, compression: 4, sample_rate: Some(48000) };
    assert_eq!(
        encoder_arguments(&job("01 One"), &options),
        texts(&[
            "-i",
            "/src/Artist/Album/01 One.wav",
            "-map_metadata",
            "-1",
            "-c:a",
            "flac",
            "-ar",
            "48000",
            "-compression_level",
            "4",
            "/dst/Artist/Album/01 One.flac",
        ])
    );
}

#[test]
fn encoder_exit_becomes_a_result() {
    assert_eq!(encode_result(&EncoderExit::Succeeded), Ok(()));
    assert_eq!(
        encode_result(&EncoderExit::Failed(1)),
        Err(WavToFlacError::EncoderError("exited with status code 1".to_string()))
    );
    assert_eq!(
        encode_result(&EncoderExit::Failed(-11)),
        Err(WavToFlacError::EncoderError("exited with status code -11".to_string()))
    );
    assert_eq!(
        encode_result(&EncoderExit::Failed(0)),
        Err(WavToFlacError::EncoderError("exited with status code 0".to_string()))
    );
    assert_eq!(
        encode_result(&EncoderExit::Killed),
        Err(WavToFlacError::EncoderError("terminated by a signal".to_string()))
    );
    assert_eq!(
        encode_result(&EncoderExit::NotStarted("No such file or directory".to_string())),
        Err(WavToFlacError::EncoderError("No such file or directory".to_string()))
    );
}

#[test]
fn a_job_starts_by_encoding() {
    let mapping = job("01 One");
    let (state, action) =
        convert(&mapping, &flac(), "cover.jpg", false, JobState::Pending, JobEvent::Started);
    assert_eq!(state, JobState::Encoding);
    assert_eq!(
        action,
        JobAction::Encode { arguments: encoder_arguments(&mapping, &flac()), silent: true }
    );
}

#[test]
fn debug_lets_the_encoder_speak() {
    let (_, action) =
        convert(&job("01 One"), &flac(), "cover.jpg", true, JobState::Pending, JobEvent::Started);
    match action {
        JobAction::Encode { silent, .. } => assert!(!silent),
        other => panic!("unexpected action: {:?}", other),
    }
}

#[test]
fn after_encoding_the_cover_is_looked_for_beside_the_target() {
    let (state, action) = convert(
        &job("01 One"),
        &flac(),
        "cover.jpg",
        false,
        JobState::Encoding,
        JobEvent::EncoderExited(EncoderExit::Succeeded),
    );
    assert_eq!(
        state,
        JobState::CheckingCover { cover_path: "/dst/Artist/Album/cover.jpg".to_string() }
    );
    assert_eq!(action, JobAction::CheckCover { path: "/dst/Artist/Album/cover.jpg".to_string() });
}

#[test]
fn failed_encoding_discards_the_target_and_ends_the_job_without_tagging() {
    let mapping = job("01 One");
    let failure = WavToFlacError::EncoderError("exited with status code 1".to_string());
    let (state, action) = convert(
        &mapping,
        &flac(),
        "cover.jpg",
        false,
        JobState::Encoding,
        JobEvent::EncoderExited(EncoderExit::Failed(1)),
    );
    assert_eq!(state, JobState::Discarding { failure: failure.clone() });
    assert_eq!(action, JobAction::Discard { path: "/dst/Artist/Album/01 One.flac".to_string() });
    let (state, action) =
        convert(&mapping, &flac(), "cover.jpg", false, state, JobEvent::Discarded);
    assert_eq!(state, JobState::Finished(encoder_failure("exited with status code 1")));
    assert_eq!(action, JobAction::Finish(ConversionOutcome::Failure(failure)));
}

#[test]
fn an_encoder_that_cannot_start_fails_the_job() {
    assert_eq!(
        run_job(&job("01 One"), EncoderExit::NotStarted("not found".to_string())),
        encoder_failure("not found")
    );
    assert_eq!(
        run_job(&job("01 One"), EncoderExit::Killed),
        encoder_failure("terminated by a signal")
    );
}

#[test]
fn tags_are_written_with_the_cover_that_exists() {
    let (state, action) = convert(
        &job("01 One"),
        &flac(),
        "cover.jpg",
        false,
        JobState::CheckingCover { cover_path: "/dst/Artist/Album/cover.jpg".to_string() },
        JobEvent::CoverChecked { exists: true },
    );
    assert_eq!(state, JobState::Tagging { refused: None });
    match action {
        JobAction::WriteTags(request) => {
            assert_eq!(request.tags.artist, "Artist");
            assert_eq!(request.tags.album, "Album");
            assert_eq!(request.tags.track_number, 1);
            assert_eq!(request.tags.title, "One");
            assert_eq!(
                request.cover,
                CoverChoice::Embed {
                    path: "/dst/Artist/Album/cover.jpg".to_string(),
                    mime_type: MimeType::Jpeg
                }
            );
        }
        other => panic!("unexpected action: {:?}", other),
    }
}

#[test]
fn tags_are_written_without_a_cover_that_is_missing() {
    let (state, action) = convert(
        &job("01 One"),
        &flac(),
        "cover.jpg",
        false,
        JobState::CheckingCover { cover_path: "/dst/Artist/Album/cover.jpg".to_string() },
        JobEvent::CoverChecked { exists: false },
    );
    assert_eq!(state, JobState::Tagging { refused: None });
    match action {
        JobAction::WriteTags(request) => assert_eq!(request.cover, CoverChoice::Absent),
        other => panic!("unexpected action: {:?}", other),
    }
}

#[test]
fn refused_cover_is_reported_after_the_tags_are_written() {
    let refused =
        WavToFlacError::TaggingError(TaggingFailure::UnsupportedExtension, "svg".to_string());
    let mapping = job("01 One");
    let (state, action) = convert(
        &mapping,
        &flac(),
        "cover.svg",
        false,
        JobState::CheckingCover { cover_path: "/dst/Artist/Album/cover.svg".to_string() },
        JobEvent::CoverChecked { exists: true },
    );
    assert_eq!(state, JobState::Tagging { refused: Some(refused.clone()) });
    match action {
        JobAction::WriteTags(request) => {
            assert_eq!(request.tags.title, "One");
            assert_eq!(request.cover, CoverChoice::Refused(refused.clone()));
        }
        other => panic!("unexpected action: {:?}", other),
    }
    let (state, action) =
        convert(&mapping, &flac(), "cover.svg", false, state, JobEvent::TagsWritten(Ok(())));
    assert_eq!(state, JobState::Finished(ConversionOutcome::Failure(refused.clone())));
    assert_eq!(action, JobAction::Finish(ConversionOutcome::Failure(refused)));
}

#[test]
fn underivable_tags_end_the_job_as_a_failure() {
    let mapping = FileMapping::new(
        "/src/Artist/Album/NoSpaceTitle.wav".to_string(),
        "/dst/Artist/Album/NoSpaceTitle.flac".to_string(),
    );
    let (state, action) = convert(
        &mapping,
        &flac(),
        "cover.jpg",
        false,
        JobState::CheckingCover { cover_path: "/dst/Artist/Album/cover.jpg".to_string() },
        JobEvent::CoverChecked { exists: false },
    );
    let failure = ConversionOutcome::Failure(WavToFlacError::TaggingError(
        TaggingFailure::MissingSpace,
        "/dst/Artist/Album/NoSpaceTitle.flac".to_string(),
    ));
    assert_eq!(state, JobState::Finished(failure.clone()));
    assert_eq!(action, JobAction::Finish(failure));
}

#[test]
fn written_tags_end_the_job_with_success() {
    let (state, action) = convert(
        &job("01 One"),
        &flac(),
        "cover.jpg",
        false,
        JobState::Tagging { refused: None },
        JobEvent::TagsWritten(Ok(())),
    );
    assert_eq!(state, JobState::Finished(ConversionOutcome::Success));
    assert_eq!(action, JobAction::Finish(ConversionOutcome::Success));
}

#[test]
fn failed_write_ends_the_job_with_the_writers_diagnostic() {
    let (state, _) = convert(
        &job("01 One"),
        &flac(),
        "cover.jpg",
        false,
        JobState::Tagging { refused: None },
        JobEvent::TagsWritten(Err("disk full".to_string())),
    );
    assert_eq!(
        state,
        JobState::Finished(ConversionOutcome::Failure(WavToFlacError::TaggingWriteError(
            "disk full".to_string()
        )))
    );
}

#[test]
fn failed_write_wins_over_a_refused_cover() {
    let refused =
        WavToFlacError::TaggingError(TaggingFailure::UnsupportedExtension, "svg".to_string());
    assert_eq!(
        finish_tagging(Some(refused.clone()), Err("disk full".to_string())),
        ConversionOutcome::Failure(WavToFlacError::TaggingWriteError("disk full".to_string()))
    );
    assert_eq!(finish_tagging(Some(refused.clone()), Ok(())), ConversionOutcome::Failure(refused));
    assert_eq!(finish_tagging(None, Ok(())), ConversionOutcome::Success);
}

#[test]
fn a_finished_job_stays_finished() {
    let (state, action) = convert(
        &job("01 One"),
        &flac(),
        "cover.jpg",
        false,
        JobState::Finished(ConversionOutcome::Success),
        JobEvent::Started,
    );
    assert_eq!(state, JobState::Finished(ConversionOutcome::Success));
    assert_eq!(action, JobAction::Finish(ConversionOutcome::Success));
}

#[test]
fn an_event_out_of_order_ends_the_job_as_a_failure() {
    let cases = vec![
        (JobState::Pending, JobEvent::TagsWritten(Ok(()))),
        (JobState::Pending, JobEvent::EncoderExited(EncoderExit::Succeeded)),
        (JobState::Encoding, JobEvent::Started),
        (JobState::Encoding, JobEvent::CoverChecked { exists: true }),
        (JobState::CheckingCover { cover_path: "c".to_string() }, JobEvent::TagsWritten(Ok(()))),
        (JobState::Tagging { refused: None }, JobEvent::CoverChecked { exists: false }),
        (JobState::Tagging { refused: None }, JobEvent::Discarded),
        (
            JobState::Discarding { failure: WavToFlacError::EncoderError("x".to_string()) },
            JobEvent::TagsWritten(Ok(())),
        ),
    ];
    for (state, event) in cases {
        let (state, action) = convert(&job("01 One"), &flac(), "cover.jpg", false, state, event);
        assert_eq!(state, JobState::Finished(out_of_order()));
        assert_eq!(action, JobAction::Finish(out_of_order()));
    }
}

#[test]
fn target_without_directory_is_tagged_without_looking_for_a_cover() {
    let mapping = FileMapping::new("/src".to_string(), "/".to_string());
    let (state, _) = convert(
        &mapping,
        &flac(),
        "cover.jpg",
        false,
        JobState::Encoding,
        JobEvent::EncoderExited(EncoderExit::Succeeded),
    );
    assert_eq!(
        state,
        JobState::Finished(ConversionOutcome::Failure(WavToFlacError::TaggingError(
            TaggingFailure::MissingParent,
            "/".to_string()
        )))
    );
}

#[test]
fn start_tagging_asks_for_the_write() {
    let (state, action) = start_tagging("/dst/Artist/Album/05 Five.flac", None);
    assert_eq!(state, JobState::Tagging { refused: None });
    assert!(matches!(action, JobAction::WriteTags(_)));
}

fn run_job(mapping: &FileMapping, encoder: EncoderExit) -> ConversionOutcome {
    let mut state = JobState::Pending;
    let mut event = JobEvent::Started;
    loop {
        let (next, action) = convert(mapping, &flac(), "cover.jpg", false, state, event);
        state = next;
        event = match action {
            JobAction::Encode { .. } => JobEvent::EncoderExited(encoder.clone()),
            JobAction::CheckCover { .. } => JobEvent::CoverChecked { exists: false },
            JobAction::WriteTags(_) => JobEvent::TagsWritten(Ok(())),
            JobAction::Discard { .. } => JobEvent::Discarded,
            JobAction::Finish(outcome) => {
                assert_eq!(state, JobState::Finished(outcome.clone()));
                return outcome;
            }
        };
    }
}

#[test]
fn one_failed_job_of_three_leaves_the_others_alone() {
    let outcomes = vec![
        run_job(&job("01 One"), EncoderExit::Succeeded),
        run_job(&job("02 Two"), EncoderExit::Failed(1)),
        run_job(&job("03 Three"), EncoderExit::Succeeded),
    ];
    assert_eq!(outcomes[0], ConversionOutcome::Success);
    assert_eq!(outcomes[1], encoder_failure("exited with status code 1"));
    assert_eq!(outcomes[2], ConversionOutcome::Success);
    assert_eq!(
        summarize(3, &outcomes),
        RunSummary { discovered: 3, skipped: 0, converted: 2, failed: 1 }
    );
}

#[test]
fn summary_counts_what_was_not_handed_out_as_skipped() {
    let outcomes = vec![ConversionOutcome::Success, out_of_order()];
    assert_eq!(
        summarize(10, &outcomes),
        RunSummary { discovered: 10, skipped: 8, converted: 1, failed: 1 }
    );
    assert_eq!(
        summarize(0, &vec![]),
        RunSummary { discovered: 0, skipped: 0, converted: 0, failed: 0 }
    );
    assert_eq!(
        summarize(1, &outcomes),
        RunSummary { discovered: 1, skipped: 0, converted: 1, failed: 1 }
    );
}

#[test]
fn outcome_can_be_duplicated() {
    let outcome = encoder_failure("x");
    assert_eq!(outcome.duplicate(), outcome);
    assert_eq!(ConversionOutcome::Success.duplicate(), ConversionOutcome::Success);
}

#[test]
fn four_events_finish_a_job_whatever_they_are() {
    let runs = vec![
        vec![
            JobEvent::Started,
            JobEvent::EncoderExited(EncoderExit::Succeeded),
            JobEvent::CoverChecked { exists: true },
            JobEvent::TagsWritten(Ok(())),
        ],
        vec![
            JobEvent::Started,
            JobEvent::EncoderExited(EncoderExit::Killed),
            JobEvent::Discarded,
            JobEvent::Started,
        ],
        vec![JobEvent::Discarded, JobEvent::Started, JobEvent::Started, JobEvent::Started],
    ];
    for events in runs {
        let mut state = JobState::Pending;
        for event in events {
            state = convert(&job("01 One"), &flac(), "cover.jpg", false, state, event).0;
        }
        assert!(matches!(state, JobState::Finished(_)));
    }
}
