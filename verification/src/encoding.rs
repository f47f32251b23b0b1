//! One job, from source file to tagged target: what the encoder is asked,
//! and what is done after each thing that happens.
//!
//! The library runs nothing. `convert` is told what happened and answers
//! with what to do next; whoever drives the job runs the encoder, looks for
//! the cover and writes the tags.

use crate::errors::{ErrorView, WavToFlacError};
use crate::files::{FileMapping, MappingView};
use crate::format::Format;
use crate::opts::EncodingOptions;
use crate::paths::{join, parent, path_join, path_parent, text_of};
use crate::tagging::{
    tag_file, tag_request_of, CoverChoice, CoverChoiceView, TagRequest, TagRequestView,
};
use crate::text::{decimal, decimal_string, push_text, signed_decimal, signed_decimal_string};
use vstd::prelude::*;
use vstd::string::*;

verus! {

/// The arguments that select codec, sample rate and compression: the codec
/// always, the sample rate where one is asked for, the compression level
/// for FLAC only.
pub open spec fn encoding_arguments_of(options: EncodingOptions) -> Seq<Seq<char>> {
    seq!["-c:a"@, options.format.codec_text()] + match options.sample_rate {
        Some(rate) => seq!["-ar"@, decimal(rate as nat)],
        None => Seq::empty(),
    } + match options.format {
        Format::Flac => seq!["-compression_level"@, decimal(options.compression as nat)],
        Format::Alac => Seq::empty(),
    }
}

/// Writes the arguments that select codec, sample rate and compression.
pub fn encoding_arguments(encoding_options: &EncodingOptions) -> (arguments: Vec<String>)
    ensures
        arguments.deep_view() == encoding_arguments_of(*encoding_options),
{
    let mut arguments: Vec<String> = Vec::new();
    assert(arguments.deep_view() =~= Seq::<Seq<char>>::empty());
    push_text(&mut arguments, String::from_str("-c:a"));
    push_text(&mut arguments, String::from_str(encoding_options.format.codec_name()));
    match encoding_options.sample_rate {
        Some(rate) => {
            push_text(&mut arguments, String::from_str("-ar"));
            push_text(&mut arguments, decimal_string(rate as u64));
        },
        None => {},
    }
    match encoding_options.format {
        Format::Flac => {
            push_text(&mut arguments, String::from_str("-compression_level"));
            push_text(&mut arguments, decimal_string(encoding_options.compression as u64));
        },
        Format::Alac => {},
    }
    assert(arguments.deep_view() =~= encoding_arguments_of(*encoding_options));
    arguments
}

/// The whole argument list of the encoder for one job: the source as
/// input, all metadata of the source dropped, codec and its parameters, the
/// target as output.
pub open spec fn encoder_arguments_of(mapping: MappingView, options: EncodingOptions) -> Seq<
    Seq<char>,
> {
    seq!["-i"@, mapping.source, "-map_metadata"@, "-1"@] + encoding_arguments_of(options)
        + seq![mapping.target]
}

/// Writes the argument list of the encoder for one job.
pub fn encoder_arguments(mapping: &FileMapping, encoding_options: &EncodingOptions) -> (arguments:
    Vec<String>)
    ensures
        arguments.deep_view() == encoder_arguments_of(mapping@, *encoding_options),
{
    let mut arguments: Vec<String> = Vec::new();
    assert(arguments.deep_view() =~= Seq::<Seq<char>>::empty());
    push_text(&mut arguments, String::from_str("-i"));
    push_text(&mut arguments, mapping.source_file.clone());
    push_text(&mut arguments, String::from_str("-map_metadata"));
    push_text(&mut arguments, String::from_str("-1"));
    let ghost head = arguments.deep_view();
    assert(head =~= seq!["-i"@, mapping@.source, "-map_metadata"@, "-1"@]);
    let selection = encoding_arguments(encoding_options);
    let ghost middle = selection.deep_view();
    let mut i: usize = 0;
    while i < selection.len()
        invariant
            i <= selection.len(),
            middle == selection.deep_view(),
            arguments.deep_view() == head + middle.take(i as int),
        decreases selection.len() - i,
    {
        let ghost before = arguments.deep_view();
        push_text(&mut arguments, selection[i].clone());
        assert(head + middle.take(i + 1) =~= before.push(middle[i as int]));
        i = i + 1;
    }
    assert(middle.take(i as int) =~= middle);
    push_text(&mut arguments, mapping.target_file.clone());
    arguments
}

/// How a run of the encoder ended.
#[derive(Debug, Clone, PartialEq, Eq)]
pub enum EncoderExit {
    /// It ran and reported success.
    Succeeded,
    /// It ran and exited with this status code.
    Failed(i32),
    /// It ran and was ended from outside, without a status code.
    Killed,
    /// It could not be started; the text says why.
    NotStarted(String),
}

/// The end of a run of the encoder as contracts see it.
pub enum ExitView {
    Succeeded,
    Failed(i32),
    Killed,
    NotStarted(Seq<char>),
}

impl View for EncoderExit {
    type V = ExitView;

    open spec fn view(&self) -> ExitView {
        match self {
            EncoderExit::Succeeded => ExitView::Succeeded,
            EncoderExit::Failed(code) => ExitView::Failed(*code),
            EncoderExit::Killed => ExitView::Killed,
            EncoderExit::NotStarted(reason) => ExitView::NotStarted(reason@),
        }
    }
}

/// The encoder's diagnostic where it did not succeed; `None` where it did.
pub open spec fn encoder_diagnostic(exit: ExitView) -> Option<Seq<char>> {
    match exit {
        ExitView::Succeeded => None,
        ExitView::Failed(code) => Some("exited with status code "@ + signed_decimal(code as int)),
        ExitView::Killed => Some("terminated by a signal"@),
        ExitView::NotStarted(reason) => Some(reason),
    }
}

/// Success, or the error that the encoder's diagnostic makes.
pub open spec fn encode_result_of(exit: ExitView) -> Result<(), ErrorView> {
    match encoder_diagnostic(exit) {
        None => Ok(()),
        Some(diagnostic) => Err(ErrorView::EncoderError(diagnostic)),
    }
}

/// Nothing or an error, as contracts see it.
pub open spec fn done_or_error(result: Result<(), WavToFlacError>) -> Result<(), ErrorView> {
    match result {
        Ok(()) => Ok(()),
        Err(error) => Err(error@),
    }
}

/// Turns the end of a run of the encoder into success or an error that
/// carries the diagnostic.
pub fn encode_result(exit: &EncoderExit) -> (result: Result<(), WavToFlacError>)
    ensures
        done_or_error(result) == encode_result_of(exit@),
{
    match exit {
        EncoderExit::Succeeded => Ok(()),
        EncoderExit::Failed(code) => Err(
            WavToFlacError::EncoderError(
                String::from_str("exited with status code ").concat(
                    signed_decimal_string(*code as i64).as_str(),
                ),
            ),
        ),
        EncoderExit::Killed => Err(
            WavToFlacError::EncoderError(String::from_str("terminated by a signal")),
        ),
        EncoderExit::NotStarted(reason) => Err(WavToFlacError::EncoderError(reason.clone())),
    }
}

/// How a job ended.
#[derive(Debug, Clone, PartialEq, Eq)]
pub enum ConversionOutcome {
    Success,
    Failure(WavToFlacError),
}

/// The end of a job as contracts see it.
pub enum OutcomeView {
    Success,
    Failure(ErrorView),
}

impl View for ConversionOutcome {
    type V = OutcomeView;

    open spec fn view(&self) -> OutcomeView {
        match self {
            ConversionOutcome::Success => OutcomeView::Success,
            ConversionOutcome::Failure(error) => OutcomeView::Failure(error@),
        }
    }
}

impl DeepView for ConversionOutcome {
    type V = OutcomeView;

    open spec fn deep_view(&self) -> OutcomeView {
        self@
    }
}

impl ConversionOutcome {
    /// A second outcome that reads the same.
    pub fn duplicate(&self) -> (copy: ConversionOutcome)
        ensures
            copy@ == self@,
    {
        match self {
            ConversionOutcome::Success => ConversionOutcome::Success,
            ConversionOutcome::Failure(error) => ConversionOutcome::Failure(error.duplicate()),
        }
    }
}

/// Where a job stands.
#[derive(Debug, Clone, PartialEq, Eq)]
pub enum JobState {
    /// Nothing has been done.
    Pending,
    /// The encoder has been asked to run.
    Encoding,
    /// The target is written; the cover at `cover_path` is being looked for.
    CheckingCover { cover_path: String },
    /// The tags are being written. `refused` is the error of a cover that
    /// was found and cannot be embedded.
    Tagging { refused: Option<WavToFlacError> },
    /// The encoder failed; what it left of the target is being removed.
    Discarding { failure: WavToFlacError },
    /// The job is over.
    Finished(ConversionOutcome),
}

/// The state of a job as contracts see it.
pub enum StateView {
    Pending,
    Encoding,
    CheckingCover { cover_path: Seq<char> },
    Tagging { refused: Option<ErrorView> },
    Discarding { failure: ErrorView },
    Finished(OutcomeView),
}

/// The view of an optional error.
pub open spec fn error_of(error: Option<WavToFlacError>) -> Option<ErrorView> {
    match error {
        Some(e) => Some(e@),
        None => None,
    }
}

impl View for JobState {
    type V = StateView;

    open spec fn view(&self) -> StateView {
        match self {
            JobState::Pending => StateView::Pending,
            JobState::Encoding => StateView::Encoding,
            JobState::CheckingCover { cover_path } => StateView::CheckingCover {
                cover_path: cover_path@,
            },
            JobState::Tagging { refused } => StateView::Tagging { refused: error_of(*refused) },
            JobState::Discarding { failure } => StateView::Discarding { failure: failure@ },
            JobState::Finished(outcome) => StateView::Finished(outcome@),
        }
    }
}

/// What happened to a job.
#[derive(Debug, PartialEq, Eq)]
pub enum JobEvent {
    /// A worker took the job.
    Started,
    /// The encoder is done.
    EncoderExited(EncoderExit),
    /// The cover was looked for.
    CoverChecked { exists: bool },
    /// The tags were written, or could not be: then the text says why.
    TagsWritten(Result<(), String>),
    /// What a failed encoder left of the target is gone.
    Discarded,
}

/// An event as contracts see it.
pub enum EventView {
    Started,
    EncoderExited(ExitView),
    CoverChecked { exists: bool },
    /// The tags were written, or they were not and `failure` says why.
    TagsWritten { failure: Option<Seq<char>> },
    Discarded,
}

/// Why a write failed, as contracts see it; `None` where it did not.
pub open spec fn write_failure(written: Result<(), String>) -> Option<Seq<char>> {
    match written {
        Ok(_) => None,
        Err(text) => Some(text@),
    }
}

impl View for JobEvent {
    type V = EventView;

    open spec fn view(&self) -> EventView {
        match self {
            JobEvent::Started => EventView::Started,
            JobEvent::EncoderExited(exit) => EventView::EncoderExited(exit@),
            JobEvent::CoverChecked { exists } => EventView::CoverChecked { exists: *exists },
            JobEvent::TagsWritten(written) => EventView::TagsWritten {
                failure: write_failure(*written),
            },
            JobEvent::Discarded => EventView::Discarded,
        }
    }
}

/// What is to be done next for a job.
#[derive(Debug, Clone, PartialEq, Eq)]
pub enum JobAction {
    /// Run the encoder with these arguments; keep its output from the
    /// terminal where `silent` is set.
    Encode { arguments: Vec<String>, silent: bool },
    /// Find out whether a file exists at `path`.
    CheckCover { path: String },
    /// Write these tags into the target.
    WriteTags(TagRequest),
    /// Remove the file at `path`, if there is one.
    Discard { path: String },
    /// Report the outcome; there is nothing more to do.
    Finish(ConversionOutcome),
}

/// An action as contracts see it.
pub enum ActionView {
    Encode { arguments: Seq<Seq<char>>, silent: bool },
    CheckCover { path: Seq<char> },
    WriteTags(TagRequestView),
    Discard { path: Seq<char> },
    Finish(OutcomeView),
}

impl View for JobAction {
    type V = ActionView;

    open spec fn view(&self) -> ActionView {
        match self {
            JobAction::Encode { arguments, silent } => ActionView::Encode {
                arguments: arguments.deep_view(),
                silent: *silent,
            },
            JobAction::CheckCover { path } => ActionView::CheckCover { path: path@ },
            JobAction::WriteTags(request) => ActionView::WriteTags(request@),
            JobAction::Discard { path } => ActionView::Discard { path: path@ },
            JobAction::Finish(outcome) => ActionView::Finish(outcome@),
        }
    }
}

/// The end of a job: its last state, and the report of it.
pub open spec fn finished(outcome: OutcomeView) -> (StateView, ActionView) {
    (StateView::Finished(outcome), ActionView::Finish(outcome))
}

/// Where the cover of a target would lie: under `cover_name`, in the
/// target's directory.
pub open spec fn cover_beside(target: Seq<char>, cover_name: Seq<char>) -> Option<Seq<char>> {
    match path_parent(target) {
        Some(directory) => Some(path_join(directory, cover_name)),
        None => None,
    }
}

/// The error of the cover that a request found and could not embed.
pub open spec fn refused_cover(request: TagRequestView) -> Option<ErrorView> {
    match request.cover {
        CoverChoiceView::Refused(error) => Some(error),
        _ => None,
    }
}

/// The step into tagging: the tags are asked to be written, or the job
/// ends where the target's path implies none.
pub open spec fn tagging(target: Seq<char>, cover_path: Option<Seq<char>>) -> (
    StateView,
    ActionView,
) {
    match tag_request_of(target, cover_path) {
        Err(error) => finished(OutcomeView::Failure(error)),
        Ok(request) => (
            StateView::Tagging { refused: refused_cover(request) },
            ActionView::WriteTags(request),
        ),
    }
}

/// How a job ends once the tags were written or not: a failed write is the
/// error; else a refused cover is; else the job succeeded.
pub open spec fn outcome_of_tagging(
    refused: Option<ErrorView>,
    failure: Option<Seq<char>>,
) -> OutcomeView {
    match failure {
        Some(text) => OutcomeView::Failure(ErrorView::TaggingWriteError(text)),
        None => match refused {
            Some(error) => OutcomeView::Failure(error),
            None => OutcomeView::Success,
        },
    }
}

/// What an event that the state does not wait for is answered with.
pub open spec fn out_of_order() -> OutcomeView {
    OutcomeView::Failure(ErrorView::ExecutorsError("unexpected event"@))
}

/// One step of a job: the state after `event`, and what to do next.
///
/// A job is encoded, then tagged, and tagged only if the encoder
/// succeeded. Where the encoder failed, what it left of the target is
/// removed before the job ends, so that a later run does not take it for a
/// converted file. Once finished a job stays so. An event that the state
/// does not wait for ends the job as a failure.
pub open spec fn step(
    mapping: MappingView,
    options: EncodingOptions,
    cover_name: Seq<char>,
    debug: bool,
    state: StateView,
    event: EventView,
) -> (StateView, ActionView) {
    match state {
        StateView::Finished(outcome) => finished(outcome),
        StateView::Pending => match event {
            EventView::Started => (
                StateView::Encoding,
                ActionView::Encode {
                    arguments: encoder_arguments_of(mapping, options),
                    silent: !debug,
                },
            ),
            _ => finished(out_of_order()),
        },
        StateView::Encoding => match event {
            EventView::EncoderExited(exit) => match encode_result_of(exit) {
                Err(error) => (
                    StateView::Discarding { failure: error },
                    ActionView::Discard { path: mapping.target },
                ),
                Ok(()) => match cover_beside(mapping.target, cover_name) {
                    Some(path) => (
                        StateView::CheckingCover { cover_path: path },
                        ActionView::CheckCover { path },
                    ),
                    None => tagging(mapping.target, None),
                },
            },
            _ => finished(out_of_order()),
        },
        StateView::CheckingCover { cover_path } => match event {
            EventView::CoverChecked { exists } => tagging(
                mapping.target,
                if exists {
                    Some(cover_path)
                } else {
                    None
                },
            ),
            _ => finished(out_of_order()),
        },
        StateView::Tagging { refused } => match event {
            EventView::TagsWritten { failure } => finished(outcome_of_tagging(refused, failure)),
            _ => finished(out_of_order()),
        },
        StateView::Discarding { failure } => match event {
            EventView::Discarded => finished(OutcomeView::Failure(failure)),
            _ => finished(out_of_order()),
        },
    }
}

fn finish(outcome: ConversionOutcome) -> (next: (JobState, JobAction))
    ensures
        (next.0@, next.1@) == finished(outcome@),
{
    let report = outcome.duplicate();
    (JobState::Finished(outcome), JobAction::Finish(report))
}

fn finish_out_of_order() -> (next: (JobState, JobAction))
    ensures
        (next.0@, next.1@) == finished(out_of_order()),
{
    finish(
        ConversionOutcome::Failure(
            WavToFlacError::ExecutorsError(String::from_str("unexpected event")),
        ),
    )
}

/// Steps into tagging with the cover that was found, if one was.
pub fn start_tagging(target_path: &str, cover_path: Option<String>) -> (next: (JobState, JobAction))
    ensures
        (next.0@, next.1@) == tagging(target_path@, text_of(cover_path)),
{
    match tag_file(target_path, cover_path) {
        Err(error) => finish(ConversionOutcome::Failure(error)),
        Ok(request) => {
            let refused = match &request.cover {
                CoverChoice::Refused(error) => Some(error.duplicate()),
                _ => None,
            };
            (JobState::Tagging { refused }, JobAction::WriteTags(request))
        },
    }
}

/// Ends a job once its tags were written, or were not.
pub fn finish_tagging(refused: Option<WavToFlacError>, written: Result<(), String>) -> (outcome:
    ConversionOutcome)
    ensures
        outcome@ == outcome_of_tagging(error_of(refused), write_failure(written)),
{
    match written {
        Err(text) => ConversionOutcome::Failure(WavToFlacError::TaggingWriteError(text)),
        Ok(()) => match refused {
            Some(error) => ConversionOutcome::Failure(error),
            None => ConversionOutcome::Success,
        },
    }
}

/// Takes a job one step further: given where it stands and what
/// happened, says where it stands now and what is to be done next.
pub fn convert(
    mapping: &FileMapping,
    encoding_options: &EncodingOptions,
    cover_name: &str,
    debug: bool,
    state: JobState,
    event: JobEvent,
) -> (next: (JobState, JobAction))
    ensures
        (next.0@, next.1@) == step(
            mapping@,
            *encoding_options,
            cover_name@,
            debug,
            state@,
            event@,
        ),
{
    match state {
        JobState::Finished(outcome) => finish(outcome),
        JobState::Pending => match event {
            JobEvent::Started => (
                JobState::Encoding,
                JobAction::Encode {
                    arguments: encoder_arguments(mapping, encoding_options),
                    silent: !debug,
                },
            ),
            _ => finish_out_of_order(),
        },
        JobState::Encoding => match event {
            JobEvent::EncoderExited(exit) => match encode_result(&exit) {
                Err(failure) => (
                    JobState::Discarding { failure },
                    JobAction::Discard { path: mapping.target_file.clone() },
                ),
                Ok(()) => match parent(mapping.target_file.as_str()) {
                    Some(directory) => {
                        let path = join(directory.as_str(), cover_name);
                        (
                            JobState::CheckingCover { cover_path: path.clone() },
                            JobAction::CheckCover { path },
                        )
                    },
                    None => start_tagging(mapping.target_file.as_str(), None),
                },
            },
            _ => finish_out_of_order(),
        },
        JobState::CheckingCover { cover_path } => match event {
            JobEvent::CoverChecked { exists } => start_tagging(
                mapping.target_file.as_str(),
                if exists {
                    Some(cover_path)
                } else {
                    None
                },
            ),
            _ => finish_out_of_order(),
        },
        JobState::Tagging { refused } => match event {
            JobEvent::TagsWritten(written) => finish(finish_tagging(refused, written)),
            _ => finish_out_of_order(),
        },
        JobState::Discarding { failure } => match event {
            JobEvent::Discarded => finish(ConversionOutcome::Failure(failure)),
            _ => finish_out_of_order(),
        },
    }
}

/// Where a job stands after `events`, taken in their order from the start.
pub open spec fn state_after(
    mapping: MappingView,
    options: EncodingOptions,
    cover_name: Seq<char>,
    debug: bool,
    events: Seq<EventView>,
) -> StateView
    decreases events.len(),
{
    if events.len() == 0 {
        StateView::Pending
    } else {
        step(
            mapping,
            options,
            cover_name,
            debug,
            state_after(mapping, options, cover_name, debug, events.drop_last()),
            events.last(),
        ).0
    }
}

/// Whatever happens to a job, and in whatever order: its cover is looked
/// for and its tags are written only after the encoder has succeeded, and
/// it succeeds only after its tags were written.
pub proof fn lemma_tagging_follows_encoding(
    mapping: MappingView,
    options: EncodingOptions,
    cover_name: Seq<char>,
    debug: bool,
    events: Seq<EventView>,
)
    ensures
        ({
            let state = state_after(mapping, options, cover_name, debug, events);
            &&& (state is CheckingCover || state is Tagging || state == StateView::Finished(
                OutcomeView::Success,
            )) ==> events.contains(EventView::EncoderExited(ExitView::Succeeded))
            &&& state == StateView::Finished(OutcomeView::Success) ==> events.contains(
                EventView::TagsWritten { failure: None },
            )
        }),
    decreases events.len(),
{
    if events.len() > 0 {
        let earlier = events.drop_last();
        let last = events.last();
        lemma_tagging_follows_encoding(mapping, options, cover_name, debug, earlier);
        assert forall|event: EventView| earlier.contains(event) implies events.contains(event) by {
            let i = choose|i: int| 0 <= i < earlier.len() && earlier[i] == event;
            assert(events[i] == event);
        }
        assert(events[events.len() - 1] == last);
        assert(events.contains(last));
        let before = state_after(mapping, options, cover_name, debug, earlier);
        let state = state_after(mapping, options, cover_name, debug, events);
        let encoded = EventView::EncoderExited(ExitView::Succeeded);
        match before {
            StateView::Encoding => {
                if let EventView::EncoderExited(exit) = last {
                    if encode_result_of(exit) is Ok {
                        assert(exit == ExitView::Succeeded);
                        assert(last == encoded);
                    }
                }
            },
            StateView::Tagging { refused } => {
                if let EventView::TagsWritten { failure } = last {
                    if outcome_of_tagging(refused, failure) is Success {
                        assert(failure is None);
                    }
                }
            },
            _ => {},
        }
    }
}

/// How many events a job in `state` can still take before it is finished.
pub open spec fn steps_left(state: StateView) -> nat {
    match state {
        StateView::Pending => 4,
        StateView::Encoding => 3,
        StateView::CheckingCover { .. } => 2,
        StateView::Tagging { .. } => 1,
        StateView::Discarding { .. } => 1,
        StateView::Finished(_) => 0,
    }
}

/// Every event brings a job nearer to its end, so that four events finish
/// it, whatever they are; and a finished job is answered with its outcome.
pub proof fn lemma_job_ends(
    mapping: MappingView,
    options: EncodingOptions,
    cover_name: Seq<char>,
    debug: bool,
    events: Seq<EventView>,
)
    ensures
        steps_left(state_after(mapping, options, cover_name, debug, events)) + events.len() <= 4
            || state_after(mapping, options, cover_name, debug, events) is Finished,
        events.len() >= 4 ==> state_after(mapping, options, cover_name, debug, events) is Finished,
        forall|event: EventView|
            (state_after(mapping, options, cover_name, debug, events) matches StateView::Finished(
                outcome,
            ) ==> #[trigger] step(
                mapping,
                options,
                cover_name,
                debug,
                state_after(mapping, options, cover_name, debug, events),
                event,
            ) == finished(outcome)),
    decreases events.len(),
{
    if events.len() > 0 {
        lemma_job_ends(mapping, options, cover_name, debug, events.drop_last());
    }
}

/// A failure of the encoder has the target removed and then ends the job,
/// with the encoder's diagnostic as its error: nothing is looked for and
/// nothing is tagged.
pub proof fn lemma_encoder_failure_ends_job(
    mapping: MappingView,
    options: EncodingOptions,
    cover_name: Seq<char>,
    debug: bool,
    exit: ExitView,
)
    requires
        exit != ExitView::Succeeded,
    ensures
        ({
            let failure = ErrorView::EncoderError(encoder_diagnostic(exit).unwrap());
            let failed = step(
                mapping,
                options,
                cover_name,
                debug,
                StateView::Encoding,
                EventView::EncoderExited(exit),
            );
            &&& encoder_diagnostic(exit) is Some
            &&& failed == (
                StateView::Discarding { failure },
                ActionView::Discard { path: mapping.target },
            )
            &&& step(mapping, options, cover_name, debug, failed.0, EventView::Discarded)
                == finished(OutcomeView::Failure(failure))
        }),
{
}

} // verus!
