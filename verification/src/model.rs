//! The models that the server can run.

use vstd::prelude::*;

use crate::chunked::{AudioInfo, ChunkedJob, ChunkedView, TimestampMode};

verus! {

/// The number of samples in a frame for the EOU model.
pub const EOU_FRAME: usize = 2560;

/// The number of samples in a frame for the Nemotron model.
pub const NEMOTRON_FRAME: usize = 8960;

/// Which model is loaded.
#[derive(Debug, Clone, Copy, PartialEq, Eq, Structural)]
pub enum Model {
    Ctc,
    Tdt,
    Eou,
    Nemotron,
}

/// How a model is to be run on a recording.
pub enum Run {
    /// In chunks of the recording as it is.
    Chunked(ChunkedJob),
    /// In frames of this many samples, of the recording as 16 kHz mono.
    Streaming(usize),
}

impl Model {
    /// Whether the model listens to a stream and reports no times.
    pub open spec fn streams(self) -> bool {
        self is Eou || self is Nemotron
    }

    /// The name under which clients know the model.
    pub open spec fn id_text(self) -> Seq<char> {
        match self {
            Model::Ctc => "parakeet-ctc-0.6b"@,
            Model::Tdt => "parakeet-tdt-0.6b-v3"@,
            Model::Eou => "parakeet-eou-120m-v1"@,
            Model::Nemotron => "nemotron-streaming-0.6b"@,
        }
    }

    /// The name under which operators know the model.
    pub open spec fn label_text(self) -> Seq<char> {
        match self {
            Model::Ctc => "CTC"@,
            Model::Tdt => "TDT"@,
            Model::Eou => "EOU"@,
            Model::Nemotron => "Nemotron"@,
        }
    }

    /// The name under which clients know the model.
    pub fn id(&self) -> (r: &'static str)
        ensures
            r@ == self.id_text(),
    {
        match self {
            Model::Ctc => "parakeet-ctc-0.6b",
            Model::Tdt => "parakeet-tdt-0.6b-v3",
            Model::Eou => "parakeet-eou-120m-v1",
            Model::Nemotron => "nemotron-streaming-0.6b",
        }
    }

    /// The name under which operators know the model.
    pub fn label(&self) -> (r: &'static str)
        ensures
            r@ == self.label_text(),
    {
        match self {
            Model::Ctc => "CTC",
            Model::Tdt => "TDT",
            Model::Eou => "EOU",
            Model::Nemotron => "Nemotron",
        }
    }

    /// How the model is to be run: the CTC and TDT models in chunks of
    /// `chunk_duration` seconds, with times for words where they are wanted and
    /// for sentences otherwise; the others as a stream.
    pub fn run(&self, info: AudioInfo, want_words: bool, chunk_duration: u64) -> (r: Run)
        requires
            self.streams() || info.can_chunk(chunk_duration),
        ensures
            match r {
                Run::Chunked(job) => !self.streams() && job@ == (ChunkedView {
                    info,
                    mode: if want_words {
                        TimestampMode::Words
                    } else {
                        TimestampMode::Sentences
                    },
                    size: info.samples_in(chunk_duration),
                    pieces: Seq::empty(),
                }),
                Run::Streaming(frame) => {
                    ||| *self is Eou && frame == EOU_FRAME
                    ||| *self is Nemotron && frame == NEMOTRON_FRAME
                },
            },
    {
        match self {
            Model::Ctc | Model::Tdt => {
                let mode: TimestampMode = if want_words {
                    TimestampMode::Words
                } else {
                    TimestampMode::Sentences
                };
                Run::Chunked(ChunkedJob::start(info, mode, chunk_duration))
            },
            Model::Eou => Run::Streaming(EOU_FRAME),
            Model::Nemotron => Run::Streaming(NEMOTRON_FRAME),
        }
    }
}

/// A model in the list of models.
pub struct ModelInfo {
    pub id: String,
    pub object: String,
    pub created: u64,
    pub owned_by: String,
}

/// The list of models.
pub struct ModelList {
    pub object: String,
    pub data: Vec<ModelInfo>,
}

/// The list of models that the server offers: the loaded one alone.
pub fn list_models(model: Model) -> (r: ModelList)
    ensures
        r.object@ == "list"@,
        r.data@.len() == 1,
        r.data@[0].id@ == model.id_text(),
        r.data@[0].object@ == "model"@,
        r.data@[0].created == 1_700_000_000,
        r.data@[0].owned_by@ == "parakeet-rs"@,
{
    let mut data: Vec<ModelInfo> = Vec::new();
    data.push(
        ModelInfo {
            id: model.id().to_owned(),
            object: "model".to_owned(),
            created: 1_700_000_000,
            owned_by: "parakeet-rs".to_owned(),
        },
    );
    ModelList { object: "list".to_owned(), data }
}

/// The answer to a liveness check.
pub struct Health {
    pub status: String,
}

/// A server that answers at all is well.
pub fn health() -> (r: Health)
    ensures
        r.status@ == "ok"@,
{
    Health { status: "ok".to_owned() }
}

}
