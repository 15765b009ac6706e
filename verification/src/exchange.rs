//! A transcription request from its headers to its answer.
//!
//! An [`Exchange`] says what is to be done next; whoever serves the request does
//! it and reports what came of it as an [`Event`].

use axum::http::{HeaderMap, HeaderValue};
use vstd::prelude::*;
use vstd::string::*;

use crate::auth::{
    authorization_text, authorize, header_fields, invalid_key, is_authorized, key_text,
};
use crate::chunked::AudioInfo;
use crate::error::{AppError, Refusal};
use crate::form::{
    blank_form, form_after, upload_of, Field, FieldView, Form, FormView, Upload, UploadView,
};
use crate::reply::{render, reply_of, Reply, ReplyView};
use crate::text::{decimal, push_decimal};
use crate::transcript::{Transcript, TranscriptView};

verus! {

/// What came of the work on a request.
pub enum Event {
    /// The next field of the form was read, or its bytes could not be.
    Field(Field),
    /// The form has no more fields.
    FormEnd,
    /// The next field of the form could not be found.
    FormFailed(String),
    /// The file could not be stored for the decoder.
    StorageFailed(String),
    /// The file could not be decoded.
    DecodeFailed(String),
    /// The file was decoded. `over_limit` says whether it is longer than the
    /// limit of the server, and `shown` gives its length in seconds, rounded to a
    /// tenth.
    Decoded { info: AudioInfo, over_limit: bool, shown: String },
    /// The model could not be run to the end.
    RunFailed(String),
    /// The model was run.
    Transcribed(Transcript),
}

/// An [`Event`] with its texts as sequences of characters.
#[verifier::ext_equal]
pub enum EventView {
    Field(FieldView),
    FormEnd,
    FormFailed(Seq<char>),
    StorageFailed(Seq<char>),
    DecodeFailed(Seq<char>),
    Decoded { info: AudioInfo, over_limit: bool, shown: Seq<char> },
    RunFailed(Seq<char>),
    Transcribed(TranscriptView),
}

impl View for Event {
    type V = EventView;

    open spec fn view(&self) -> EventView {
        match self {
            Event::Field(field) => EventView::Field(field@),
            Event::FormEnd => EventView::FormEnd,
            Event::FormFailed(cause) => EventView::FormFailed(cause@),
            Event::StorageFailed(cause) => EventView::StorageFailed(cause@),
            Event::DecodeFailed(cause) => EventView::DecodeFailed(cause@),
            Event::Decoded { info, over_limit, shown } => EventView::Decoded {
                info: *info,
                over_limit: *over_limit,
                shown: shown@,
            },
            Event::RunFailed(cause) => EventView::RunFailed(cause@),
            Event::Transcribed(transcript) => EventView::Transcribed(transcript@),
        }
    }
}

/// How the server is set up to handle files. `max_duration` is the longest file
/// allowed in seconds, and zero stands for no limit. `chunk_duration` is the
/// longest piece of a file that a model hears at once, in seconds.
#[derive(Debug, Clone, Copy, PartialEq, Eq, Structural)]
pub struct Settings {
    pub max_duration: u64,
    pub chunk_duration: u64,
}

/// How far a request has come, and so what is to be done next.
pub enum Stage {
    /// The next field of the form is to be read.
    Reading(Form),
    /// The file is to be stored and decoded.
    Decoding(Upload),
    /// The model is to be run on the decoded file, with times for words or not, in
    /// chunks of this many seconds where it hears chunks.
    Running { info: AudioInfo, want_words: bool, chunk_duration: u64, response_format: String },
    /// The request is to be answered so.
    Answered(Reply),
    /// The request is to be refused so.
    Refused(AppError),
}

/// A [`Stage`] with its texts as sequences of characters.
#[verifier::ext_equal]
pub enum StageView {
    Reading(FormView),
    Decoding(UploadView),
    Running { info: AudioInfo, want_words: bool, chunk_duration: u64, response_format: Seq<char> },
    Answered(ReplyView),
    Refused(Refusal),
}

impl View for Stage {
    type V = StageView;

    open spec fn view(&self) -> StageView {
        match self {
            Stage::Reading(form) => StageView::Reading(form@),
            Stage::Decoding(upload) => StageView::Decoding(upload@),
            Stage::Running { info, want_words, chunk_duration, response_format } => StageView::Running {
                info: *info,
                want_words: *want_words,
                chunk_duration: *chunk_duration,
                response_format: response_format@,
            },
            Stage::Answered(reply) => StageView::Answered(reply@),
            Stage::Refused(e) => StageView::Refused(e@),
        }
    }
}

/// What is said of a file that is `shown` seconds long, where `limit` are allowed.
pub open spec fn too_long(shown: Seq<char>, limit: u64) -> Seq<char> {
    "Audio duration "@ + shown + "s exceeds server limit of "@ + decimal(limit as nat) + "s"@
}

/// How a request begins: without the right key it is refused.
pub open spec fn opening(api_key: Option<Seq<char>>, header: Option<Seq<char>>) -> StageView {
    if is_authorized(api_key, header) {
        StageView::Reading(blank_form())
    } else {
        StageView::Refused(invalid_key())
    }
}

/// How far a request has come after one event more. An event that the stage does
/// not wait for changes nothing.
pub open spec fn stage_after(
    settings: Settings,
    stage: StageView,
    event: EventView,
) -> StageView {
    match (stage, event) {
        (StageView::Reading(form), EventView::Field(field)) => match form_after(form, field) {
            Ok(next) => StageView::Reading(next),
            Err(e) => StageView::Refused(e),
        },
        (StageView::Reading(form), EventView::FormEnd) => match upload_of(form) {
            Ok(upload) => StageView::Decoding(upload),
            Err(e) => StageView::Refused(e),
        },
        (StageView::Reading(_), EventView::FormFailed(cause)) => StageView::Refused(
            Refusal::BadRequest(cause),
        ),
        (StageView::Decoding(_), EventView::StorageFailed(cause)) => StageView::Refused(
            Refusal::Internal(cause),
        ),
        (StageView::Decoding(_), EventView::DecodeFailed(cause)) => StageView::Refused(
            Refusal::BadRequest("Audio decode error: "@ + cause),
        ),
        (StageView::Decoding(upload), EventView::Decoded { info, over_limit, shown }) => if settings.max_duration
            > 0 && over_limit {
            StageView::Refused(Refusal::PayloadTooLarge(too_long(shown, settings.max_duration)))
        } else {
            StageView::Running {
                info,
                want_words: upload.want_words,
                chunk_duration: settings.chunk_duration,
                response_format: upload.response_format,
            }
        },
        (StageView::Running { .. }, EventView::RunFailed(cause)) => StageView::Refused(
            Refusal::Internal(cause),
        ),
        (
            StageView::Running { response_format, .. },
            EventView::Transcribed(transcript),
        ) => StageView::Answered(reply_of(response_format, transcript)),
        _ => stage,
    }
}

fn too_long_message(shown: &str, limit: u64) -> (r: String)
    ensures
        r@ == too_long(shown@, limit),
{
    let mut message: String = "Audio duration ".to_owned();
    message.append(shown);
    message.append("s exceeds server limit of ");
    push_decimal(&mut message, limit);
    message.append("s");
    message
}

/// A transcription request under way.
pub struct Exchange {
    pub settings: Settings,
    pub stage: Stage,
}

impl Exchange {
    /// Begins with the headers of a request.
    pub fn open(
        api_key: &Option<String>,
        settings: Settings,
        headers: &HeaderMap<HeaderValue>,
    ) -> (r: Exchange)
        ensures
            r.settings == settings,
            r.stage@ == opening(
                key_text(*api_key),
                authorization_text(header_fields(*headers)),
            ),
    {
        let stage: Stage = match authorize(api_key, headers) {
            Ok(_) => Stage::Reading(Form::new()),
            Err(e) => Stage::Refused(e),
        };
        Exchange { settings, stage }
    }

    /// Goes on after `event`.
    pub fn step(self, event: Event) -> (r: Exchange)
        ensures
            r.settings == self.settings,
            r.stage@ == stage_after(self.settings, self.stage@, event@),
    {
        let settings: Settings = self.settings;
        let stage: Stage = match self.stage {
            Stage::Reading(form) => match event {
                Event::Field(field) => match form.accept(field) {
                    Ok(next) => Stage::Reading(next),
                    Err(e) => Stage::Refused(e),
                },
                Event::FormEnd => match form.finish() {
                    Ok(upload) => Stage::Decoding(upload),
                    Err(e) => Stage::Refused(e),
                },
                Event::FormFailed(cause) => Stage::Refused(AppError::bad_request(cause.as_str())),
                _ => Stage::Reading(form),
            },
            Stage::Decoding(upload) => match event {
                Event::StorageFailed(cause) => Stage::Refused(AppError::internal(cause.as_str())),
                Event::DecodeFailed(cause) => {
                    let mut message: String = "Audio decode error: ".to_owned();
                    message.append(cause.as_str());
                    Stage::Refused(AppError::bad_request(message.as_str()))
                },
                Event::Decoded { info, over_limit, shown } => if settings.max_duration > 0
                    && over_limit {
                    let message: String = too_long_message(
                        shown.as_str(),
                        settings.max_duration,
                    );
                    Stage::Refused(AppError::payload_too_large(message.as_str()))
                } else {
                    Stage::Running {
                        info,
                        want_words: upload.want_words,
                        chunk_duration: settings.chunk_duration,
                        response_format: upload.response_format,
                    }
                },
                _ => Stage::Decoding(upload),
            },
            Stage::Running { info, want_words, chunk_duration, response_format } => match event {
                Event::RunFailed(cause) => Stage::Refused(AppError::internal(cause.as_str())),
                Event::Transcribed(transcript) => Stage::Answered(
                    render(response_format.as_str(), transcript),
                ),
                _ => Stage::Running { info, want_words, chunk_duration, response_format },
            },
            Stage::Answered(reply) => Stage::Answered(reply),
            Stage::Refused(e) => Stage::Refused(e),
        };
        Exchange { settings, stage }
    }
}

/// A request that may be served begins with an empty form, and any other one ends
/// at once.
pub proof fn law_opening(api_key: Option<Seq<char>>, header: Option<Seq<char>>)
    ensures
        is_authorized(api_key, header) ==> {
            &&& opening(api_key, header) matches StageView::Reading(form) && {
                &&& form.file is None
                &&& form.file_name is None
                &&& form.response_format == "json"@
                &&& form.granularities.len() == 0
            }
        },
        !is_authorized(api_key, header) ==> opening(api_key, header) == StageView::Refused(
            Refusal::Unauthorized("Invalid API key"@),
        ),
{
}

/// What fails on the way ends the request, with the cause as its message: as a bad
/// request where the form or the file is at fault, and as an internal error where
/// the server is.
pub proof fn law_failures(
    settings: Settings,
    form: FormView,
    upload: UploadView,
    running: StageView,
    cause: Seq<char>,
)
    requires
        running is Running,
    ensures
        stage_after(settings, StageView::Reading(form), EventView::FormFailed(cause))
            == StageView::Refused(Refusal::BadRequest(cause)),
        stage_after(settings, StageView::Decoding(upload), EventView::StorageFailed(cause))
            == StageView::Refused(Refusal::Internal(cause)),
        stage_after(settings, StageView::Decoding(upload), EventView::DecodeFailed(cause))
            == StageView::Refused(Refusal::BadRequest("Audio decode error: "@ + cause)),
        stage_after(settings, running, EventView::RunFailed(cause)) == StageView::Refused(
            Refusal::Internal(cause),
        ),
{
}

/// A decoded file that is not too long is handed to the model with what the form
/// asked for, in chunks of the configured length; one that is too long is refused,
/// with its length and the limit in the message.
pub proof fn law_decoded(
    settings: Settings,
    upload: UploadView,
    info: AudioInfo,
    over_limit: bool,
    shown: Seq<char>,
)
    ensures
        ({
            let next = stage_after(
                settings,
                StageView::Decoding(upload),
                EventView::Decoded { info, over_limit, shown },
            );
            &&& settings.max_duration > 0 && over_limit ==> next == StageView::Refused(
                Refusal::PayloadTooLarge(
                    "Audio duration "@ + shown + "s exceeds server limit of "@ + decimal(
                        settings.max_duration as nat,
                    ) + "s"@,
                ),
            )
            &&& settings.max_duration == 0 || !over_limit ==> next == (StageView::Running {
                info,
                want_words: upload.want_words,
                chunk_duration: settings.chunk_duration,
                response_format: upload.response_format,
            })
        }),
{
}

/// An event that does not report on what was to be done changes nothing.
pub proof fn law_out_of_turn(settings: Settings, stage: StageView, event: EventView)
    ensures
        stage is Reading && !(event is Field || event is FormEnd || event is FormFailed)
            ==> stage_after(settings, stage, event) == stage,
        stage is Decoding && !(event is StorageFailed || event is DecodeFailed || event is Decoded)
            ==> stage_after(settings, stage, event) == stage,
        stage is Running && !(event is RunFailed || event is Transcribed) ==> stage_after(
            settings,
            stage,
            event,
        ) == stage,
        stage is Answered || stage is Refused ==> stage_after(settings, stage, event) == stage,
{
}

/// What the model reports is answered in the format that the form asked for.
pub proof fn law_transcribed(settings: Settings, running: StageView, transcript: TranscriptView)
    requires
        running is Running,
    ensures
        stage_after(settings, running, EventView::Transcribed(transcript)) == StageView::Answered(
            reply_of(running->response_format, transcript),
        ),
{
}

/// An event is viewed as its kind and what it holds.
pub proof fn law_event_view(event: Event)
    ensures
        match event {
            Event::Field(field) => event@ == EventView::Field(field@),
            Event::FormEnd => event@ is FormEnd,
            Event::FormFailed(cause) => event@ == EventView::FormFailed(cause@),
            Event::StorageFailed(cause) => event@ == EventView::StorageFailed(cause@),
            Event::DecodeFailed(cause) => event@ == EventView::DecodeFailed(cause@),
            Event::Decoded { info, over_limit, shown } => event@ == (EventView::Decoded {
                info,
                over_limit,
                shown: shown@,
            }),
            Event::RunFailed(cause) => event@ == EventView::RunFailed(cause@),
            Event::Transcribed(transcript) => event@ == EventView::Transcribed(transcript@),
        },
{
}

/// A stage is viewed as its kind and what it holds.
pub proof fn law_stage_view(stage: Stage)
    ensures
        match stage {
            Stage::Reading(form) => stage@ == StageView::Reading(form@),
            Stage::Decoding(upload) => stage@ == StageView::Decoding(upload@),
            Stage::Running { info, want_words, chunk_duration, response_format } => stage@ == (
            StageView::Running {
                info,
                want_words,
                chunk_duration,
                response_format: response_format@,
            }),
            Stage::Answered(reply) => stage@ == StageView::Answered(reply@),
            Stage::Refused(e) => stage@ == StageView::Refused(e@),
        },
{
}

}
