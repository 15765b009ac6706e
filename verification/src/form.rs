//! The multipart form of a transcription request.

use vstd::prelude::*;
use vstd::string::*;

use crate::error::{AppError, Refusal};
use crate::media::{is_suffix_for, temp_suffix};
use crate::text::{decoded_text, from_utf8_lossy, same_text, trim, trimmed};

verus! {

/// A text that may be missing, as a sequence of characters.
pub open spec fn optional_text(text: Option<String>) -> Option<Seq<char>> {
    match text {
        Some(t) => Some(t@),
        None => None,
    }
}

/// A field of the form as it came in: its name, the name of the file that it
/// holds, and its bytes, or why they could not be read.
pub struct Field {
    pub name: Option<String>,
    pub file_name: Option<String>,
    pub body: Result<Vec<u8>, String>,
}

/// A [`Field`] with its texts as sequences of characters.
#[verifier::ext_equal]
pub struct FieldView {
    pub name: Option<Seq<char>>,
    pub file_name: Option<Seq<char>>,
    pub body: Result<Seq<u8>, Seq<char>>,
}

impl View for Field {
    type V = FieldView;

    open spec fn view(&self) -> FieldView {
        FieldView {
            name: optional_text(self.name),
            file_name: optional_text(self.file_name),
            body: match self.body {
                Ok(bytes) => Ok(bytes@),
                Err(cause) => Err(cause@),
            },
        }
    }
}

impl FieldView {
    /// Whether the field goes by this name. A field without a name counts as one
    /// with an empty name.
    pub open spec fn is_named(self, name: Seq<char>) -> bool {
        match self.name {
            Some(own) => own == name,
            None => name == Seq::<char>::empty(),
        }
    }

    /// Whether the field holds the audio file.
    pub open spec fn is_file(self) -> bool {
        self.is_named("file"@)
    }

    /// Whether the field asks for a format of the answer.
    pub open spec fn is_format(self) -> bool {
        self.is_named("response_format"@)
    }

    /// Whether the field asks for times.
    pub open spec fn is_granularity(self) -> bool {
        self.is_named("timestamp_granularities[]"@) || self.is_named("timestamp_granularities"@)
    }

    /// Whether the field plays no part. `model`, `language`, `prompt` and
    /// `temperature` are such fields.
    pub open spec fn is_ignored(self) -> bool {
        !self.is_file() && !self.is_format() && !self.is_granularity()
    }
}

/// What is kept of a form.
pub struct Form {
    pub file: Option<Vec<u8>>,
    pub file_name: Option<String>,
    pub response_format: String,
    pub granularities: Vec<String>,
}

/// A [`Form`] with its texts as sequences of characters.
#[verifier::ext_equal]
pub struct FormView {
    pub file: Option<Seq<u8>>,
    pub file_name: Option<Seq<char>>,
    pub response_format: Seq<char>,
    pub granularities: Seq<Seq<char>>,
}

impl View for Form {
    type V = FormView;

    open spec fn view(&self) -> FormView {
        FormView {
            file: match self.file {
                Some(bytes) => Some(bytes@),
                None => None,
            },
            file_name: optional_text(self.file_name),
            response_format: self.response_format@,
            granularities: self.granularities@.map_values(|g: String| g@),
        }
    }
}

/// A form before its first field.
pub open spec fn blank_form() -> FormView {
    FormView {
        file: None,
        file_name: None,
        response_format: "json"@,
        granularities: Seq::empty(),
    }
}

/// The text of a field: its bytes as text, without white space at either end.
pub open spec fn field_text(bytes: Seq<u8>) -> Seq<char> {
    trimmed(decoded_text(bytes))
}

/// What a form becomes by one field more. A field that plays a part and cannot
/// be read spoils the form; one that plays none does not.
pub open spec fn form_after(form: FormView, field: FieldView) -> Result<FormView, Refusal> {
    if field.is_ignored() {
        Ok(form)
    } else {
        match field.body {
            Err(cause) => Err(Refusal::BadRequest(cause)),
            Ok(bytes) => if field.is_file() {
                Ok(FormView { file: Some(bytes), file_name: field.file_name, ..form })
            } else if field.is_format() {
                Ok(FormView { response_format: field_text(bytes), ..form })
            } else {
                Ok(
                    FormView {
                        granularities: form.granularities.push(field_text(bytes)),
                        ..form
                    },
                )
            },
        }
    }
}

/// Whether the caller is interested in the times of words.
pub open spec fn wants_words(form: FormView) -> bool {
    form.granularities.contains("word"@) || form.response_format == "verbose_json"@
}

/// A complete request.
pub struct Upload {
    pub bytes: Vec<u8>,
    pub file_name: Option<String>,
    pub response_format: String,
    pub want_words: bool,
}

/// An [`Upload`] with its texts as sequences of characters.
#[verifier::ext_equal]
pub struct UploadView {
    pub bytes: Seq<u8>,
    pub file_name: Option<Seq<char>>,
    pub response_format: Seq<char>,
    pub want_words: bool,
}

impl View for Upload {
    type V = UploadView;

    open spec fn view(&self) -> UploadView {
        UploadView {
            bytes: self.bytes@,
            file_name: optional_text(self.file_name),
            response_format: self.response_format@,
            want_words: self.want_words,
        }
    }
}

/// What a form without further fields amounts to. The file is required.
pub open spec fn upload_of(form: FormView) -> Result<UploadView, Refusal> {
    match form.file {
        Some(bytes) => Ok(
            UploadView {
                bytes,
                file_name: form.file_name,
                response_format: form.response_format,
                want_words: wants_words(form),
            },
        ),
        None => Err(Refusal::BadRequest("Missing required field: file"@)),
    }
}

impl Upload {
    /// The suffix of the temporary file for the upload.
    pub fn suffix(&self) -> (r: String)
        ensures
            is_suffix_for(self@.file_name, r@),
    {
        match &self.file_name {
            Some(name) => temp_suffix(Some(name.as_str())),
            None => temp_suffix(None),
        }
    }
}

impl Form {
    /// A form before its first field: the answer is in JSON unless a field says
    /// otherwise.
    pub fn new() -> (r: Form)
        ensures
            r@ == blank_form(),
    {
        let granularities: Vec<String> = Vec::new();
        assert(granularities@.map_values(|g: String| g@) =~= Seq::<Seq<char>>::empty());
        Form { file: None, file_name: None, response_format: "json".to_owned(), granularities }
    }

    /// The form with the format that the caller wrote as `text`.
    pub fn with_format(self, text: &str) -> (r: Form)
        ensures
            r@ == (FormView { response_format: trimmed(text@), ..self@ }),
    {
        Form {
            file: self.file,
            file_name: self.file_name,
            response_format: trim(text).to_owned(),
            granularities: self.granularities,
        }
    }

    /// The form with one granularity more, which the caller wrote as `text`.
    pub fn with_granularity(self, text: &str) -> (r: Form)
        ensures
            r@ == (FormView { granularities: self@.granularities.push(trimmed(text@)), ..self@ }),
    {
        let Form { file, file_name, response_format, mut granularities } = self;
        let ghost kept = granularities@;
        granularities.push(trim(text).to_owned());
        assert(granularities@.map_values(|g: String| g@) =~= kept.map_values(|g: String| g@).push(
            trimmed(text@),
        ));
        Form { file, file_name, response_format, granularities }
    }

    /// The form with one field more.
    pub fn accept(self, field: Field) -> (r: Result<Form, AppError>)
        ensures
            match r {
                Ok(form) => form_after(self@, field@) == Ok::<FormView, Refusal>(form@),
                Err(e) => form_after(self@, field@) == Err::<FormView, Refusal>(e@),
            },
    {
        let ghost seen = field@;
        let name: String = match field.name {
            Some(name) => name,
            None => String::new(),
        };
        let is_file: bool = same_text(name.as_str(), "file");
        let is_format: bool = same_text(name.as_str(), "response_format");
        let is_granularity: bool = same_text(name.as_str(), "timestamp_granularities[]")
            || same_text(name.as_str(), "timestamp_granularities");
        proof {
            assert(is_file == seen.is_file());
            assert(is_format == seen.is_format());
            assert(is_granularity == seen.is_granularity());
        }
        if !is_file && !is_format && !is_granularity {
            return Ok(self);
        }
        match field.body {
            Err(cause) => Err(AppError::bad_request(cause.as_str())),
            Ok(bytes) => {
                if is_file {
                    Ok(
                        Form {
                            file: Some(bytes),
                            file_name: field.file_name,
                            response_format: self.response_format,
                            granularities: self.granularities,
                        },
                    )
                } else {
                    let text: String = from_utf8_lossy(bytes.as_slice());
                    if is_format {
                        Ok(self.with_format(text.as_str()))
                    } else {
                        Ok(self.with_granularity(text.as_str()))
                    }
                }
            },
        }
    }

    /// Whether the caller is interested in the times of words.
    pub fn wants_words(&self) -> (r: bool)
        ensures
            r == wants_words(self@),
    {
        if same_text(self.response_format.as_str(), "verbose_json") {
            return true;
        }
        let count: usize = self.granularities.len();
        let mut i: usize = 0;
        while i < count
            invariant
                count == self.granularities@.len(),
                i <= count,
                forall|j: int| 0 <= j < i ==> #[trigger] self@.granularities[j] != "word"@,
            decreases count - i,
        {
            assert(self@.granularities[i as int] == self.granularities@[i as int]@);
            if same_text(self.granularities[i].as_str(), "word") {
                return true;
            }
            i = i + 1;
        }
        false
    }

    /// The request that the form amounts to once its last field is in.
    pub fn finish(self) -> (r: Result<Upload, AppError>)
        ensures
            match r {
                Ok(upload) => upload_of(self@) == Ok::<UploadView, Refusal>(upload@),
                Err(e) => upload_of(self@) == Err::<UploadView, Refusal>(e@),
            },
    {
        let want_words: bool = self.wants_words();
        match self.file {
            Some(bytes) => Ok(
                Upload {
                    bytes,
                    file_name: self.file_name,
                    response_format: self.response_format,
                    want_words,
                },
            ),
            None => Err(AppError::bad_request("Missing required field: file")),
        }
    }
}

/// What a form becomes by all of `fields`, one after another.
pub open spec fn form_after_all(form: FormView, fields: Seq<FieldView>) -> Result<FormView, Refusal>
    decreases fields.len(),
{
    if fields.len() == 0 {
        Ok(form)
    } else {
        match form_after_all(form, fields.drop_last()) {
            Ok(before) => form_after(before, fields.last()),
            Err(e) => Err(e),
        }
    }
}

/// A field that plays no part changes nothing, whether it can be read or not.
pub proof fn law_ignored_field(form: FormView, field: FieldView)
    requires
        field.is_ignored(),
    ensures
        form_after(form, field) == Ok::<FormView, Refusal>(form),
{
}

/// Fields that play no part might as well not be there.
proof fn lemma_ignored_fields(form: FormView, fields: Seq<FieldView>)
    ensures
        form_after_all(form, fields) == form_after_all(
            form,
            fields.filter(|f: FieldView| !f.is_ignored()),
        ),
    decreases fields.len(),
{
    let plays = |f: FieldView| !f.is_ignored();
    reveal(Seq::filter);
    if fields.len() > 0 {
        let rest = fields.drop_last();
        lemma_ignored_fields(form, rest);
        if plays(fields.last()) {
            let kept = rest.filter(plays);
            assert(kept.push(fields.last()).drop_last() =~= kept);
            assert(fields.filter(plays) =~= kept.push(fields.last()));
        } else {
            law_ignored_field(form, fields.last());
        }
    }
}

/// Two forms whose fields differ only by those that play no part amount to the
/// same. `model`, `language`, `prompt` and `temperature` play none.
pub proof fn law_ignored_fields(form: FormView, a: Seq<FieldView>, b: Seq<FieldView>)
    requires
        a.filter(|f: FieldView| !f.is_ignored()) == b.filter(|f: FieldView| !f.is_ignored()),
    ensures
        form_after_all(form, a) == form_after_all(form, b),
        forall|f: FieldView|
            f.is_named("model"@) || f.is_named("language"@) || f.is_named("prompt"@) || f.is_named(
                "temperature"@,
            ) ==> #[trigger] f.is_ignored(),
{
    lemma_ignored_fields(form, a);
    lemma_ignored_fields(form, b);
    lemma_names();
    reveal_strlit("model");
    reveal_strlit("language");
    reveal_strlit("prompt");
    reveal_strlit("temperature");
    assert("model"@.len() == 5);
    assert("language"@.len() == 8);
    assert("prompt"@.len() == 6);
    assert("temperature"@.len() == 11);
}

/// The granularities of a form are the values of all the fields that ask for
/// times, in their order.
pub proof fn law_granularities_collected(form: FormView, fields: Seq<FieldView>)
    ensures
        form_after_all(form, fields) matches Ok(done) ==> done.granularities == form.granularities
            + fields.filter(|f: FieldView| f.is_granularity()).map_values(
            |f: FieldView| field_text(f.body->Ok_0),
        ),
    decreases fields.len(),
{
    let asks = |f: FieldView| f.is_granularity();
    let value = |f: FieldView| field_text(f.body->Ok_0);
    reveal(Seq::filter);
    lemma_roles();
    if fields.len() == 0 {
        assert(form.granularities + fields.filter(asks).map_values(value) =~= form.granularities);
    } else {
        let rest = fields.drop_last();
        law_granularities_collected(form, rest);
        if asks(fields.last()) {
            assert(fields.filter(asks) =~= rest.filter(asks).push(fields.last()));
            assert((form.granularities + rest.filter(asks).map_values(value)).push(
                value(fields.last()),
            ) =~= form.granularities + fields.filter(asks).map_values(value));
        }
    }
}

/// Fields that do not ask for a format leave the format as it is.
pub proof fn law_format_kept(form: FormView, fields: Seq<FieldView>)
    requires
        forall|i: int| 0 <= i < fields.len() ==> !(#[trigger] fields[i]).is_format(),
    ensures
        form_after_all(form, fields) matches Ok(done) ==> done.response_format
            == form.response_format,
    decreases fields.len(),
{
    if fields.len() > 0 {
        law_format_kept(form, fields.drop_last());
    }
}

/// Fields that do not hold the file leave the file and its name as they are.
pub proof fn law_file_kept(form: FormView, fields: Seq<FieldView>)
    requires
        forall|i: int| 0 <= i < fields.len() ==> !(#[trigger] fields[i]).is_file(),
    ensures
        form_after_all(form, fields) matches Ok(done) ==> done.file == form.file && done.file_name
            == form.file_name,
    decreases fields.len(),
{
    if fields.len() > 0 {
        law_file_kept(form, fields.drop_last());
    }
}

/// Of several fields that ask for a format, or that hold a file, the last counts.
pub proof fn law_last_field_counts(
    form: FormView,
    field: FieldView,
    bytes: Seq<u8>,
    rest: Seq<FieldView>,
    done: FormView,
)
    requires
        field.body == Ok::<Seq<u8>, Seq<char>>(bytes),
        form_after(form, field) matches Ok(next) && form_after_all(next, rest) == Ok::<
            FormView,
            Refusal,
        >(done),
    ensures
        field.is_format() && (forall|i: int|
            0 <= i < rest.len() ==> !(#[trigger] rest[i]).is_format()) ==> done.response_format
            == field_text(bytes),
        field.is_file() && (forall|i: int|
            0 <= i < rest.len() ==> !(#[trigger] rest[i]).is_file()) ==> done.file == Some(bytes)
            && done.file_name == field.file_name,
{
    let next = form_after(form, field)->Ok_0;
    lemma_roles();
    if forall|i: int| 0 <= i < rest.len() ==> !(#[trigger] rest[i]).is_format() {
        law_format_kept(next, rest);
    }
    if forall|i: int| 0 <= i < rest.len() ==> !(#[trigger] rest[i]).is_file() {
        law_file_kept(next, rest);
    }
}

/// No field plays two parts.
proof fn lemma_roles()
    ensures
        forall|f: FieldView| #[trigger] f.is_file() ==> !f.is_format() && !f.is_granularity(),
        forall|f: FieldView| #[trigger] f.is_format() ==> !f.is_file() && !f.is_granularity(),
{
    lemma_names();
}

/// A field goes by the name that it has, and by an empty one where it has none.
pub proof fn law_named(field: FieldView, name: Seq<char>)
    ensures
        field.name matches Some(own) ==> (field.is_named(name) <==> own == name),
        field.name is None ==> (field.is_named(name) <==> name.len() == 0),
{
    if name.len() == 0 {
        assert(name =~= Seq::<char>::empty());
    }
}

proof fn lemma_names()
    ensures
        "file"@.len() == 4,
        "response_format"@.len() == 15,
        "timestamp_granularities[]"@.len() == 25,
        "timestamp_granularities"@.len() == 23,
{
    reveal_strlit("file");
    reveal_strlit("response_format");
    reveal_strlit("timestamp_granularities[]");
    reveal_strlit("timestamp_granularities");
}

/// What a field does to a form, by its name. The file is kept whole, with the name
/// under which it was sent. The format is kept as text without white space at its
/// ends, and a granularity likewise goes behind those before it. Each leaves the
/// rest of the form as it is, and a field under any other name leaves all of it.
pub proof fn law_field_effect(form: FormView, field: FieldView)
    ensures
        field.name == Some("file"@) ==> (field.body matches Ok(bytes) ==> {
            &&& form_after(form, field) matches Ok(done) && {
                &&& done.file == Some(bytes)
                &&& done.file_name == field.file_name
                &&& done.response_format == form.response_format
                &&& done.granularities == form.granularities
            }
        }),
        field.name == Some("response_format"@) ==> (field.body matches Ok(bytes) ==> {
            &&& form_after(form, field) matches Ok(done) && {
                &&& done.file == form.file
                &&& done.file_name == form.file_name
                &&& done.response_format == trimmed(decoded_text(bytes))
                &&& done.granularities == form.granularities
            }
        }),
        field.name == Some("timestamp_granularities[]"@) || field.name == Some(
            "timestamp_granularities"@,
        ) ==> (field.body matches Ok(bytes) ==> {
            &&& form_after(form, field) matches Ok(done) && {
                &&& done.file == form.file
                &&& done.file_name == form.file_name
                &&& done.response_format == form.response_format
                &&& done.granularities == form.granularities.push(trimmed(decoded_text(bytes)))
            }
        }),
        field.name == Some("file"@) || field.name == Some("response_format"@) || field.name == Some(
            "timestamp_granularities[]"@,
        ) || field.name == Some("timestamp_granularities"@) ==> (field.body matches Err(cause)
            ==> form_after(form, field) == Err::<FormView, Refusal>(Refusal::BadRequest(cause))),
        field.name != Some("file"@) && field.name != Some("response_format"@) && field.name != Some(
            "timestamp_granularities[]"@,
        ) && field.name != Some("timestamp_granularities"@) ==> form_after(form, field) == Ok::<
            FormView,
            Refusal,
        >(form),
{
    lemma_names();
}

/// A form begins without a file, with `json` for its format and without
/// granularities.
pub proof fn law_blank_form()
    ensures
        blank_form().file is None,
        blank_form().file_name is None,
        blank_form().response_format == "json"@,
        blank_form().granularities.len() == 0,
{
}

/// A form amounts to its file, whole and unchanged, with the name and the format
/// that it holds; without a file it amounts to nothing. Words are wanted exactly
/// where a granularity is `word` or the format is `verbose_json`.
pub proof fn law_upload(form: FormView)
    ensures
        form.file matches Some(bytes) ==> {
            &&& upload_of(form) matches Ok(upload) && {
                &&& upload.bytes == bytes
                &&& upload.file_name == form.file_name
                &&& upload.response_format == form.response_format
                &&& upload.want_words <==> form.response_format == "verbose_json"@ || exists|i: int|
                    0 <= i < form.granularities.len() && #[trigger] form.granularities[i]
                        == "word"@
            }
        },
        form.file is None ==> upload_of(form) == Err::<UploadView, Refusal>(
            Refusal::BadRequest("Missing required field: file"@),
        ),
        wants_words(form) <==> form.response_format == "verbose_json"@ || exists|i: int|
            0 <= i < form.granularities.len() && #[trigger] form.granularities[i] == "word"@,
{
}

/// A form whose fields can all be read is not refused.
pub proof fn law_readable_form(form: FormView, fields: Seq<FieldView>)
    requires
        forall|i: int| 0 <= i < fields.len() ==> (#[trigger] fields[i]).body is Ok,
    ensures
        form_after_all(form, fields) is Ok,
    decreases fields.len(),
{
    if fields.len() > 0 {
        let rest = fields.drop_last();
        assert forall|i: int| 0 <= i < rest.len() implies (#[trigger] rest[i]).body is Ok by {
            assert(rest[i] == fields[i]);
        }
        law_readable_form(form, rest);
        assert(fields[fields.len() - 1].body is Ok);
    }
}

/// A form with fields that are read to the end holds the body of the last field
/// named `file`, of whatever length, and that field's file name.
pub proof fn law_last_file(form: FormView, fields: Seq<FieldView>, k: int, done: FormView)
    requires
        0 <= k < fields.len(),
        fields[k].name == Some("file"@),
        forall|i: int| k < i < fields.len() ==> (#[trigger] fields[i]).name != Some("file"@),
        form_after_all(form, fields) == Ok::<FormView, Refusal>(done),
    ensures
        fields[k].body matches Ok(bytes) && done.file == Some(bytes),
        done.file_name == fields[k].file_name,
    decreases fields.len(),
{
    let rest = fields.drop_last();
    let before = form_after_all(form, rest)->Ok_0;
    law_field_effect(before, fields.last());
    lemma_names();
    if k < rest.len() {
        assert(rest[k] == fields[k]);
        assert(fields[fields.len() - 1].name != Some("file"@));
        assert forall|i: int| k < i < rest.len() implies (#[trigger] rest[i]).name != Some(
            "file"@,
        ) by {
            assert(rest[i] == fields[i]);
        }
        law_last_file(form, rest, k, before);
    }
}

/// A form with fields that are read to the end holds the text of the last field
/// named `response_format`, without white space at its ends.
pub proof fn law_last_format(form: FormView, fields: Seq<FieldView>, k: int, done: FormView)
    requires
        0 <= k < fields.len(),
        fields[k].name == Some("response_format"@),
        forall|i: int|
            k < i < fields.len() ==> (#[trigger] fields[i]).name != Some("response_format"@),
        form_after_all(form, fields) == Ok::<FormView, Refusal>(done),
    ensures
        fields[k].body matches Ok(bytes) && done.response_format == trimmed(decoded_text(bytes)),
    decreases fields.len(),
{
    let rest = fields.drop_last();
    let before = form_after_all(form, rest)->Ok_0;
    law_field_effect(before, fields.last());
    lemma_names();
    if k < rest.len() {
        assert(rest[k] == fields[k]);
        assert(fields[fields.len() - 1].name != Some("response_format"@));
        assert forall|i: int| k < i < rest.len() implies (#[trigger] rest[i]).name != Some(
            "response_format"@,
        ) by {
            assert(rest[i] == fields[i]);
        }
        law_last_format(form, rest, k, before);
    }
}

/// A form with fields that are read to the end keeps its format where none of them
/// is named `response_format`.
pub proof fn law_default_format(form: FormView, fields: Seq<FieldView>, done: FormView)
    requires
        forall|i: int|
            0 <= i < fields.len() ==> (#[trigger] fields[i]).name != Some("response_format"@),
        form_after_all(form, fields) == Ok::<FormView, Refusal>(done),
    ensures
        done.response_format == form.response_format,
    decreases fields.len(),
{
    if fields.len() > 0 {
        let rest = fields.drop_last();
        let before = form_after_all(form, rest)->Ok_0;
        law_field_effect(before, fields.last());
        assert(fields[fields.len() - 1].name != Some("response_format"@));
        assert forall|i: int| 0 <= i < rest.len() implies (#[trigger] rest[i]).name != Some(
            "response_format"@,
        ) by {
            assert(rest[i] == fields[i]);
        }
        law_default_format(form, rest, before);
    }
}

/// Whether `field` asks for times by writing `value`.
pub open spec fn asks_for(field: FieldView, value: Seq<char>) -> bool {
    &&& field.name == Some("timestamp_granularities[]"@) || field.name == Some(
        "timestamp_granularities"@,
    )
    &&& field.body matches Ok(bytes) && trimmed(decoded_text(bytes)) == value
}

/// A form with fields that are read to the end holds a granularity exactly where one
/// of the fields asks for it, if it held none before.
pub proof fn law_granularity_asked(
    form: FormView,
    fields: Seq<FieldView>,
    done: FormView,
    value: Seq<char>,
)
    requires
        form.granularities.len() == 0,
        form_after_all(form, fields) == Ok::<FormView, Refusal>(done),
    ensures
        done.granularities.contains(value) <==> exists|i: int|
            0 <= i < fields.len() && asks_for(#[trigger] fields[i], value),
    decreases fields.len(),
{
    if fields.len() > 0 {
        let rest = fields.drop_last();
        let last = fields.last();
        let before = form_after_all(form, rest)->Ok_0;
        law_field_effect(before, last);
        lemma_names();
        law_granularity_asked(form, rest, before, value);
        assert(fields[fields.len() - 1] == last);
        if before.granularities.contains(value) {
            let i = choose|i: int| 0 <= i < rest.len() && asks_for(#[trigger] rest[i], value);
            assert(asks_for(fields[i], value));
            let j = choose|j: int|
                0 <= j < before.granularities.len() && before.granularities[j] == value;
            assert(done.granularities[j] == value);
        }
        if asks_for(last, value) {
            assert(done.granularities[before.granularities.len() as int] == value);
        }
        if done.granularities.contains(value) && !before.granularities.contains(value) {
            let j = choose|j: int|
                0 <= j < done.granularities.len() && done.granularities[j] == value;
            if j < before.granularities.len() {
                assert(before.granularities[j] == value);
            }
            assert(asks_for(last, value));
        }
        if exists|i: int| 0 <= i < fields.len() && asks_for(#[trigger] fields[i], value) {
            let i = choose|i: int| 0 <= i < fields.len() && asks_for(#[trigger] fields[i], value);
            if i < rest.len() {
                assert(asks_for(rest[i], value));
            }
        }
    }
}

/// A field is viewed as what it holds.
pub proof fn law_field_view(field: Field)
    ensures
        match field.name {
            Some(name) => field@.name == Some(name@),
            None => field@.name is None,
        },
        match field.file_name {
            Some(name) => field@.file_name == Some(name@),
            None => field@.file_name is None,
        },
        match field.body {
            Ok(bytes) => field@.body == Ok::<Seq<u8>, Seq<char>>(bytes@),
            Err(cause) => field@.body == Err::<Seq<u8>, Seq<char>>(cause@),
        },
{
}

/// A form is viewed as what it holds.
pub proof fn law_form_view(form: Form)
    ensures
        match form.file {
            Some(bytes) => form@.file == Some(bytes@),
            None => form@.file is None,
        },
        match form.file_name {
            Some(name) => form@.file_name == Some(name@),
            None => form@.file_name is None,
        },
        form@.response_format == form.response_format@,
        form@.granularities.len() == form.granularities@.len(),
        forall|i: int|
            0 <= i < form.granularities@.len() ==> #[trigger] form@.granularities[i]
                == form.granularities@[i]@,
{
}

/// An upload is viewed as what it holds.
pub proof fn law_upload_view(upload: Upload)
    ensures
        upload@.bytes == upload.bytes@,
        match upload.file_name {
            Some(name) => upload@.file_name == Some(name@),
            None => upload@.file_name is None,
        },
        upload@.response_format == upload.response_format@,
        upload@.want_words == upload.want_words,
{
}

}
