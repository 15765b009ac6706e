//! What holds of every request, whatever happens on the way.

use vstd::prelude::*;

use crate::auth::{invalid_key, is_authorized};
use crate::chunked::AudioInfo;
use crate::exchange::{opening, stage_after, too_long, EventView, Settings, StageView};
use crate::form::{
    asks_for, blank_form, form_after_all, law_default_format, law_granularity_asked, law_last_file,
    law_last_format, law_readable_form, wants_words, FieldView, FormView, UploadView,
};
use crate::error::Refusal;
use crate::reply::{reply_of, segment_of, verbose_of, ReplyView, Seconds};
use crate::streaming::StreamingView;
use crate::text::{decoded_text, trimmed};
use crate::transcript::TranscriptView;

verus! {

/// How far a request has come after all of `events`, one after another.
pub open spec fn stage_after_all(settings: Settings, stage: StageView, events: Seq<EventView>) -> StageView
    decreases events.len(),
{
    if events.len() == 0 {
        stage
    } else {
        stage_after(
            settings,
            stage_after_all(settings, stage, events.drop_last()),
            events.last(),
        )
    }
}

/// Whether the request is over.
pub open spec fn is_over(stage: StageView) -> bool {
    stage is Answered || stage is Refused
}

/// A request that is answered or refused stays so.
pub proof fn law_over_is_over(settings: Settings, stage: StageView, events: Seq<EventView>)
    requires
        is_over(stage),
    ensures
        stage_after_all(settings, stage, events) == stage,
    decreases events.len(),
{
    if events.len() > 0 {
        law_over_is_over(settings, stage, events.drop_last());
    }
}

/// A request without the right key is refused, and nothing that follows changes
/// that: its form is not read, its file not decoded, and no model runs.
pub proof fn law_unauthorized(
    settings: Settings,
    api_key: Option<Seq<char>>,
    header: Option<Seq<char>>,
    events: Seq<EventView>,
)
    requires
        !is_authorized(api_key, header),
    ensures
        stage_after_all(settings, opening(api_key, header), events) == StageView::Refused(
            invalid_key(),
        ),
        invalid_key().status() == 401,
{
    law_over_is_over(settings, opening(api_key, header), events);
}

/// Whether `event` brings the audio file.
pub open spec fn brings_file(event: EventView) -> bool {
    event matches EventView::Field(field) && field.is_file() && field.body is Ok
}

/// Whether the form has been read to its end without fault.
pub open spec fn has_upload(stage: StageView) -> bool {
    stage is Decoding || stage is Running || stage is Answered
}

/// Nothing is decoded, run or answered for a request that brought no file.
pub proof fn law_file_required(
    settings: Settings,
    api_key: Option<Seq<char>>,
    header: Option<Seq<char>>,
    events: Seq<EventView>,
)
    requires
        forall|i: int| 0 <= i < events.len() ==> !brings_file(#[trigger] events[i]),
    ensures
        !has_upload(stage_after_all(settings, opening(api_key, header), events)),
        stage_after_all(settings, opening(api_key, header), events) matches StageView::Reading(form)
            ==> form.file is None,
    decreases events.len(),
{
    if events.len() > 0 {
        law_file_required(settings, api_key, header, events.drop_last());
        assert(!brings_file(events[events.len() - 1]));
    }
}

/// A form that ends without a file is refused as a bad request.
pub proof fn law_missing_file(settings: Settings, form: FormView)
    requires
        form.file is None,
    ensures
        stage_after(settings, StageView::Reading(form), EventView::FormEnd) == StageView::Refused(
            Refusal::BadRequest("Missing required field: file"@),
        ),
{
}

/// An answer is never made up: it says what the model reported.
pub proof fn law_answer_is_transcript(
    settings: Settings,
    api_key: Option<Seq<char>>,
    header: Option<Seq<char>>,
    events: Seq<EventView>,
)
    ensures
        stage_after_all(settings, opening(api_key, header), events) matches StageView::Answered(reply)
            ==> exists|i: int, format: Seq<char>|
            #![trigger reply_of(format, events[i]->Transcribed_0)]
            0 <= i < events.len() && events[i] is Transcribed && reply == reply_of(
                format,
                events[i]->Transcribed_0,
            ),
    decreases events.len(),
{
    let stage = stage_after_all(settings, opening(api_key, header), events);
    if events.len() > 0 && stage is Answered {
        let rest = events.drop_last();
        let before = stage_after_all(settings, opening(api_key, header), rest);
        law_answer_is_transcript(settings, api_key, header, rest);
        let last = events.len() - 1;
        if before is Answered {
            let (i, format) = choose|i: int, format: Seq<char>|
                #![trigger reply_of(format, rest[i]->Transcribed_0)]
                0 <= i < rest.len() && rest[i] is Transcribed && before->Answered_0 == reply_of(
                    format,
                    rest[i]->Transcribed_0,
                );
            assert(events[i] == rest[i]);
            assert(stage->Answered_0 == reply_of(format, events[i]->Transcribed_0));
        } else {
            let format = before->response_format;
            assert(stage->Answered_0 == reply_of(format, events[last]->Transcribed_0));
        }
    }
}

/// Where the answer is to give words, the model is asked for the times of words:
/// so it is for every request in the format `verbose_json`.
pub proof fn law_verbose_wants_words(
    settings: Settings,
    api_key: Option<Seq<char>>,
    header: Option<Seq<char>>,
    events: Seq<EventView>,
)
    ensures
        stage_after_all(settings, opening(api_key, header), events) matches StageView::Decoding(upload)
            ==> (upload.response_format == "verbose_json"@ ==> upload.want_words),
        stage_after_all(settings, opening(api_key, header), events) matches StageView::Running {
            want_words,
            response_format,
            ..
        } ==> (response_format == "verbose_json"@ ==> want_words),
    decreases events.len(),
{
    if events.len() > 0 {
        law_verbose_wants_words(settings, api_key, header, events.drop_last());
    }
}

/// A file is refused for its length exactly where there is a limit and the file
/// is over it.
pub proof fn law_length_limit(
    settings: Settings,
    upload: UploadView,
    info: AudioInfo,
    over_limit: bool,
    shown: Seq<char>,
)
    ensures
        ({
            let next = stage_after(
                settings,
                StageView::Decoding(upload),
                EventView::Decoded { info, over_limit, shown },
            );
            &&& next is Refused <==> settings.max_duration > 0 && over_limit
            &&& next is Refused ==> next == StageView::Refused(
                Refusal::PayloadTooLarge(too_long(shown, settings.max_duration)),
            )
            &&& next is Refused || next is Running
        }),
{
}

/// The models that listen to a stream give no words, and one segment over the
/// whole file.
pub proof fn law_streaming_has_no_words(job: StreamingView)
    ensures
        verbose_of(job.transcript()).words is None,
        segment_of(job.transcript()).start == Seconds::Zero,
        segment_of(job.transcript()).end == Seconds::Duration,
{
}

/// Words come one for one from the tokens, in their order and with their times;
/// the segment begins with the first and ends with the last.
pub proof fn law_words_are_tokens(transcript: TranscriptView)
    requires
        transcript.tokens.len() > 0,
    ensures
        verbose_of(transcript).words matches Some(words) && {
            &&& words.len() == transcript.tokens.len()
            &&& forall|i: int|
                0 <= i < words.len() ==> {
                    &&& (#[trigger] words[i]).word == transcript.tokens[i].text
                    &&& words[i].start == Seconds::At(transcript.tokens[i].start)
                    &&& words[i].end == Seconds::At(transcript.tokens[i].end)
                }
            &&& segment_of(transcript).start == words.first().start
            &&& segment_of(transcript).end == words.last().end
        },
{
}

/// Every format gives the same text.
pub proof fn law_same_text_in_every_format(format: Seq<char>, transcript: TranscriptView)
    ensures
        match reply_of(format, transcript) {
            ReplyView::Text { body, .. } => body == transcript.text,
            ReplyView::Verbose(json) => json.text == transcript.text && json.segments == Some(
                seq![segment_of(transcript)],
            ) && segment_of(transcript).text == transcript.text,
            ReplyView::Json(text) => text == transcript.text,
        },
{
}

/// The events of a form with these fields, before its end.
pub open spec fn field_events(fields: Seq<FieldView>) -> Seq<EventView> {
    fields.map_values(|f: FieldView| EventView::Field(f))
}

/// Reading a form field by field keeps what the fields amount to, or refuses the
/// request for the first of them that spoils it.
pub proof fn law_form_is_read(settings: Settings, fields: Seq<FieldView>)
    ensures
        stage_after_all(settings, StageView::Reading(blank_form()), field_events(fields))
            == match form_after_all(blank_form(), fields) {
            Ok(form) => StageView::Reading(form),
            Err(e) => StageView::Refused(e),
        },
    decreases fields.len(),
{
    let events = field_events(fields);
    if fields.len() > 0 {
        law_form_is_read(settings, fields.drop_last());
        assert(events.drop_last() =~= field_events(fields.drop_last()));
    }
}

/// A request with the right key and a file that is not over the limit has the
/// model run on that file, in chunks of the configured length, and with times for
/// words exactly where its form asks for them.
pub proof fn law_model_is_run(
    settings: Settings,
    api_key: Option<Seq<char>>,
    header: Option<Seq<char>>,
    fields: Seq<FieldView>,
    form: FormView,
    info: AudioInfo,
    over_limit: bool,
    shown: Seq<char>,
)
    requires
        is_authorized(api_key, header),
        form_after_all(blank_form(), fields) == Ok::<FormView, Refusal>(form),
        form.file is Some,
        settings.max_duration == 0 || !over_limit,
    ensures
        stage_after_all(
            settings,
            opening(api_key, header),
            field_events(fields).push(EventView::FormEnd).push(
                EventView::Decoded { info, over_limit, shown },
            ),
        ) == (StageView::Running {
            info,
            want_words: wants_words(form),
            chunk_duration: settings.chunk_duration,
            response_format: form.response_format,
        }),
{
    let read = field_events(fields);
    let ended = read.push(EventView::FormEnd);
    let decoded = ended.push(EventView::Decoded { info, over_limit, shown });
    law_form_is_read(settings, fields);
    reveal_with_fuel(stage_after_all, 3);
    assert(ended.drop_last() =~= read);
    assert(decoded.drop_last() =~= ended);
}

/// Whenever the model is to be run, it is in chunks of the configured length.
pub proof fn law_chunk_duration(
    settings: Settings,
    api_key: Option<Seq<char>>,
    header: Option<Seq<char>>,
    events: Seq<EventView>,
)
    ensures
        stage_after_all(settings, opening(api_key, header), events) matches StageView::Running {
            chunk_duration,
            ..
        } ==> chunk_duration == settings.chunk_duration,
    decreases events.len(),
{
    if events.len() > 0 {
        law_chunk_duration(settings, api_key, header, events.drop_last());
    }
}

/// The model is run at most once for a request: what came of it ends the request,
/// and nothing else changes how it is to be run.
pub proof fn law_model_runs_once(settings: Settings, stage: StageView, event: EventView)
    requires
        stage is Running,
    ensures
        stage_after(settings, stage, event) == stage || is_over(
            stage_after(settings, stage, event),
        ),
        event is Transcribed || event is RunFailed ==> is_over(
            stage_after(settings, stage, event),
        ),
{
}

/// A request with the right key and a file that is not over the limit is
/// answered with what the model reports, in the format that its form asks for.
pub proof fn law_request_served(
    settings: Settings,
    api_key: Option<Seq<char>>,
    header: Option<Seq<char>>,
    fields: Seq<FieldView>,
    form: FormView,
    info: AudioInfo,
    over_limit: bool,
    shown: Seq<char>,
    transcript: TranscriptView,
)
    requires
        is_authorized(api_key, header),
        form_after_all(blank_form(), fields) == Ok::<FormView, Refusal>(form),
        form.file is Some,
        settings.max_duration == 0 || !over_limit,
    ensures
        stage_after_all(
            settings,
            opening(api_key, header),
            field_events(fields).push(EventView::FormEnd).push(
                EventView::Decoded { info, over_limit, shown },
            ).push(EventView::Transcribed(transcript)),
        ) == StageView::Answered(reply_of(form.response_format, transcript)),
{
    let decoded = field_events(fields).push(EventView::FormEnd).push(
        EventView::Decoded { info, over_limit, shown },
    );
    law_model_is_run(
        settings,
        api_key,
        header,
        fields,
        form,
        info,
        over_limit,
        shown,
    );
    assert(decoded.push(EventView::Transcribed(transcript)).drop_last() =~= decoded);
}

/// Once the form has ended, what is decoded is the body of the last field named
/// `file`, every byte of it and no other, under that field's file name. A form whose
/// fields can all be read gets there.
pub proof fn law_file_is_decoded(
    settings: Settings,
    api_key: Option<Seq<char>>,
    header: Option<Seq<char>>,
    fields: Seq<FieldView>,
    k: int,
)
    requires
        is_authorized(api_key, header),
        0 <= k < fields.len(),
        fields[k].name == Some("file"@),
        forall|i: int| k < i < fields.len() ==> (#[trigger] fields[i]).name != Some("file"@),
    ensures
        ({
            let stage = stage_after_all(
                settings,
                opening(api_key, header),
                field_events(fields).push(EventView::FormEnd),
            );
            &&& stage is Decoding || stage is Refused
            &&& (forall|i: int| 0 <= i < fields.len() ==> (#[trigger] fields[i]).body is Ok)
                ==> stage is Decoding
            &&& stage matches StageView::Decoding(upload) ==> {
                &&& fields[k].body matches Ok(bytes) && upload.bytes == bytes
                &&& upload.file_name == fields[k].file_name
            }
        }),
{
    let read = field_events(fields);
    let ended = read.push(EventView::FormEnd);
    law_form_is_read(settings, fields);
    assert(ended.drop_last() =~= read);
    if forall|i: int| 0 <= i < fields.len() ==> (#[trigger] fields[i]).body is Ok {
        law_readable_form(blank_form(), fields);
    }
    if let Ok(form) = form_after_all(blank_form(), fields) {
        law_last_file(blank_form(), fields, k, form);
    }
}

/// Once the form has ended, the format of the answer is the text of the last field
/// named `response_format`, without white space at its ends, and `json` where there
/// is no such field. Words are wanted exactly where a field asks for the granularity
/// `word` or the format is `verbose_json`.
pub proof fn law_request_options(
    settings: Settings,
    api_key: Option<Seq<char>>,
    header: Option<Seq<char>>,
    fields: Seq<FieldView>,
    k: int,
)
    requires
        is_authorized(api_key, header),
        -1 <= k < fields.len(),
        k >= 0 ==> fields[k].name == Some("response_format"@),
        forall|i: int|
            k < i < fields.len() ==> (#[trigger] fields[i]).name != Some("response_format"@),
    ensures
        stage_after_all(
            settings,
            opening(api_key, header),
            field_events(fields).push(EventView::FormEnd),
        ) matches StageView::Decoding(upload) ==> {
            &&& k >= 0 ==> (fields[k].body matches Ok(bytes) && upload.response_format == trimmed(
                decoded_text(bytes),
            ))
            &&& k < 0 ==> upload.response_format == "json"@
            &&& upload.want_words <==> upload.response_format == "verbose_json"@ || exists|i: int|
                0 <= i < fields.len() && asks_for(#[trigger] fields[i], "word"@)
        },
{
    let read = field_events(fields);
    let ended = read.push(EventView::FormEnd);
    law_form_is_read(settings, fields);
    assert(ended.drop_last() =~= read);
    if let Ok(form) = form_after_all(blank_form(), fields) {
        if k >= 0 {
            law_last_format(blank_form(), fields, k, form);
        } else {
            law_default_format(blank_form(), fields, form);
        }
        law_granularity_asked(blank_form(), fields, form, "word"@);
    }
}

}
