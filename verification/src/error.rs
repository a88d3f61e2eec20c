//! Errors, the texts they are reported with and the HTTP statuses they are answered with.
use crate::inference::Speed;
use crate::text;
use vstd::prelude::*;

verus! {

/// Why the MP3 encoder could not be set up.
#[derive(Debug, Clone, Copy, PartialEq, Eq)]
pub enum Mp3BuildError {
    Generic,
    NoMem,
    BadBRate,
    BadSampleFreq,
    InternalError,
    Other(i32),
}

impl Mp3BuildError {
    /// The text of the error.
    pub open spec fn message(self) -> Seq<char> {
        match self {
            Mp3BuildError::Generic => "error"@,
            Mp3BuildError::NoMem => "alloc failure"@,
            Mp3BuildError::BadBRate => "bad bitrate"@,
            Mp3BuildError::BadSampleFreq => "bad sample frequency"@,
            Mp3BuildError::InternalError => "internal error"@,
            Mp3BuildError::Other(code) => "error code="@ + text::signed_decimal_text(code as int),
        }
    }

    /// The text of the error.
    pub fn to_string(&self) -> (message: String)
        ensures
            message@ == self.message(),
    {
        match self {
            Mp3BuildError::Generic => "error".to_owned(),
            Mp3BuildError::NoMem => "alloc failure".to_owned(),
            Mp3BuildError::BadBRate => "bad bitrate".to_owned(),
            Mp3BuildError::BadSampleFreq => "bad sample frequency".to_owned(),
            Mp3BuildError::InternalError => "internal error".to_owned(),
            Mp3BuildError::Other(code) => {
                let mut message = "error code=".to_owned();
                message.append(text::signed_decimal(*code).as_str());
                message
            },
        }
    }
}

/// Why the MP3 encoder gave up on its input.
#[derive(Debug, Clone, Copy, PartialEq, Eq)]
pub enum Mp3EncodeError {
    BufferTooSmall,
    NoMem,
    InvalidState,
    PsychoAcoustic,
    Other(i32),
}

impl Mp3EncodeError {
    /// The text of the error.
    pub open spec fn message(self) -> Seq<char> {
        match self {
            Mp3EncodeError::BufferTooSmall => "output buffer is insufficient for encoder output"@,
            Mp3EncodeError::NoMem => "alloc failure"@,
            Mp3EncodeError::InvalidState => "attempt to use uninitialized encoder"@,
            Mp3EncodeError::PsychoAcoustic => "psycho acoustic problems"@,
            Mp3EncodeError::Other(code) => "error code="@ + text::signed_decimal_text(code as int),
        }
    }

    /// The text of the error.
    pub fn to_string(&self) -> (message: String)
        ensures
            message@ == self.message(),
    {
        match self {
            Mp3EncodeError::BufferTooSmall => {
                "output buffer is insufficient for encoder output".to_owned()
            },
            Mp3EncodeError::NoMem => "alloc failure".to_owned(),
            Mp3EncodeError::InvalidState => "attempt to use uninitialized encoder".to_owned(),
            Mp3EncodeError::PsychoAcoustic => "psycho acoustic problems".to_owned(),
            Mp3EncodeError::Other(code) => {
                let mut message = "error code=".to_owned();
                message.append(text::signed_decimal(*code).as_str());
                message
            },
        }
    }
}

/// `before`, `inner` and `after`, one behind the other.
pub(crate) fn framed(before: &str, inner: &str, after: &str) -> (message: String)
    ensures
        message@ == before@ + inner@ + after@,
{
    let mut message = before.to_owned();
    message.append(inner);
    message.append(after);
    message
}

/// `before` and `inner`, one behind the other.
pub(crate) fn prefixed(before: &str, inner: &str) -> (message: String)
    ensures
        message@ == before@ + inner@,
{
    let mut message = before.to_owned();
    message.append(inner);
    message
}

/// What can go wrong between phoneme tokens and encoded audio.
#[derive(Debug)]
pub enum InferenceError {
    /// The inference runtime could not be set up.
    OrtSetup(String),
    ModelLoad { path: String, message: String },
    EmptyTokenIds,
    /// The style vector has this many elements instead of 256.
    StyleLength(usize),
    NonPositiveSpeed(Speed),
    TensorBuild { name: &'static str, message: String },
    InferenceRun(String),
    TensorExtract { name: &'static str, message: String },
    SessionPoisoned,
    TaskPanic(String),
    WavEncode(String),
    Mp3Init,
    Mp3Build(Mp3BuildError),
    Mp3Encode(Mp3EncodeError),
}

impl InferenceError {
    /// The text of the error.
    pub open spec fn message(self) -> Seq<char> {
        match self {
            InferenceError::OrtSetup(m) => "ONNX runtime setup failed: "@ + m@,
            InferenceError::ModelLoad { path, message } => "load model from `"@ + path@ + "`: "@
                + message@,
            InferenceError::EmptyTokenIds => "token_ids must not be empty"@,
            InferenceError::StyleLength(n) => "style vector must have exactly 256 elements, got "@
                + text::decimal_text(n as nat),
            InferenceError::NonPositiveSpeed(speed) => "speed must be positive, got "@
                + speed.text@,
            InferenceError::TensorBuild { name, message } => "build `"@ + name@ + "` tensor: "@
                + message@,
            InferenceError::InferenceRun(m) => "inference run: "@ + m@,
            InferenceError::TensorExtract { name, message } => "extract `"@ + name@ + "` tensor: "@
                + message@,
            InferenceError::SessionPoisoned =>
                "ONNX session mutex poisoned (a previous inference panicked)"@,
            InferenceError::TaskPanic(m) => "inference task panicked: "@ + m@,
            InferenceError::WavEncode(m) => "WAV encode: "@ + m@,
            InferenceError::Mp3Init => "MP3 init failed (lame returned null)"@,
            InferenceError::Mp3Build(e) => "MP3 build: "@ + e.message(),
            InferenceError::Mp3Encode(e) => "MP3 encode: "@ + e.message(),
        }
    }

    /// The text of the error.
    pub fn to_string(&self) -> (message: String)
        ensures
            message@ == self.message(),
    {
        match self {
            InferenceError::OrtSetup(m) => prefixed("ONNX runtime setup failed: ", m.as_str()),
            InferenceError::ModelLoad { path, message } => prefixed(
                framed("load model from `", path.as_str(), "`: ").as_str(),
                message.as_str(),
            ),
            InferenceError::EmptyTokenIds => "token_ids must not be empty".to_owned(),
            InferenceError::StyleLength(n) => prefixed(
                "style vector must have exactly 256 elements, got ",
                text::decimal(*n as u64).as_str(),
            ),
            InferenceError::NonPositiveSpeed(speed) => prefixed(
                "speed must be positive, got ",
                speed.text.as_str(),
            ),
            InferenceError::TensorBuild { name, message } => prefixed(
                framed("build `", name, "` tensor: ").as_str(),
                message.as_str(),
            ),
            InferenceError::InferenceRun(m) => prefixed("inference run: ", m.as_str()),
            InferenceError::TensorExtract { name, message } => prefixed(
                framed("extract `", name, "` tensor: ").as_str(),
                message.as_str(),
            ),
            InferenceError::SessionPoisoned => {
                "ONNX session mutex poisoned (a previous inference panicked)".to_owned()
            },
            InferenceError::TaskPanic(m) => prefixed("inference task panicked: ", m.as_str()),
            InferenceError::WavEncode(m) => prefixed("WAV encode: ", m.as_str()),
            InferenceError::Mp3Init => "MP3 init failed (lame returned null)".to_owned(),
            InferenceError::Mp3Build(e) => prefixed("MP3 build: ", e.to_string().as_str()),
            InferenceError::Mp3Encode(e) => prefixed("MP3 encode: ", e.to_string().as_str()),
        }
    }
}

/// What can go wrong between text and phoneme tokens.
#[derive(Debug)]
pub enum PhonemizerError {
    VocabRead { path: String, source: String },
    VocabParse(String),
    MissingBos,
    MissingEos,
    EspeakInit(String),
    EspeakFailed(String),
    MisakiError(String),
    UnknownBackend(String),
}

impl PhonemizerError {
    /// The text of the error.
    pub open spec fn message(self) -> Seq<char> {
        match self {
            PhonemizerError::VocabRead { path, source } => "read vocab file `"@ + path@ + "`: "@
                + source@,
            PhonemizerError::VocabParse(m) => "parse vocab JSON: "@ + m@,
            PhonemizerError::MissingBos => "BOS token '$' missing from vocab"@,
            PhonemizerError::MissingEos => "EOS token ';' missing from vocab"@,
            PhonemizerError::EspeakInit(m) => "espeak-ng init: "@ + m@,
            PhonemizerError::EspeakFailed(m) => "espeak-ng: "@ + m@,
            PhonemizerError::MisakiError(m) => "misaki-rs: "@ + m@,
            PhonemizerError::UnknownBackend(name) => "unknown PHONEMIZER backend: '"@ + name@
                + "' (valid options: \"espeak\", \"misaki\")"@,
        }
    }

    /// The text of the error.
    pub fn to_string(&self) -> (message: String)
        ensures
            message@ == self.message(),
    {
        match self {
            PhonemizerError::VocabRead { path, source } => prefixed(
                framed("read vocab file `", path.as_str(), "`: ").as_str(),
                source.as_str(),
            ),
            PhonemizerError::VocabParse(m) => prefixed("parse vocab JSON: ", m.as_str()),
            PhonemizerError::MissingBos => "BOS token '$' missing from vocab".to_owned(),
            PhonemizerError::MissingEos => "EOS token ';' missing from vocab".to_owned(),
            PhonemizerError::EspeakInit(m) => prefixed("espeak-ng init: ", m.as_str()),
            PhonemizerError::EspeakFailed(m) => prefixed("espeak-ng: ", m.as_str()),
            PhonemizerError::MisakiError(m) => prefixed("misaki-rs: ", m.as_str()),
            PhonemizerError::UnknownBackend(name) => framed(
                "unknown PHONEMIZER backend: '",
                name.as_str(),
                "' (valid options: \"espeak\", \"misaki\")",
            ),
        }
    }
}

/// What can go wrong with voice files and with requests for a voice.
#[derive(Debug)]
pub enum VoiceError {
    DirOpen { path: String, source: String },
    DirEntry(String),
    InvalidFilename(String),
    FileRead { path: String, source: String },
    InvalidBinSize { path: String, len: usize },
    EmptyVoicesDir(String),
    UnknownVoice { name: String },
    ZeroStyles { name: String },
}

/// A [`VoiceError`] by the texts that it holds.
pub enum VoiceErrorView {
    DirOpen { path: Seq<char>, source: Seq<char> },
    DirEntry(Seq<char>),
    InvalidFilename(Seq<char>),
    FileRead { path: Seq<char>, source: Seq<char> },
    InvalidBinSize { path: Seq<char>, len: nat },
    EmptyVoicesDir(Seq<char>),
    UnknownVoice { name: Seq<char> },
    ZeroStyles { name: Seq<char> },
}

impl View for VoiceError {
    type V = VoiceErrorView;

    open spec fn view(&self) -> VoiceErrorView {
        match *self {
            VoiceError::DirOpen { path, source } => VoiceErrorView::DirOpen {
                path: path@,
                source: source@,
            },
            VoiceError::DirEntry(source) => VoiceErrorView::DirEntry(source@),
            VoiceError::InvalidFilename(path) => VoiceErrorView::InvalidFilename(path@),
            VoiceError::FileRead { path, source } => VoiceErrorView::FileRead {
                path: path@,
                source: source@,
            },
            VoiceError::InvalidBinSize { path, len } => VoiceErrorView::InvalidBinSize {
                path: path@,
                len: len as nat,
            },
            VoiceError::EmptyVoicesDir(path) => VoiceErrorView::EmptyVoicesDir(path@),
            VoiceError::UnknownVoice { name } => VoiceErrorView::UnknownVoice { name: name@ },
            VoiceError::ZeroStyles { name } => VoiceErrorView::ZeroStyles { name: name@ },
        }
    }
}

impl VoiceError {
    /// The text of the error.
    pub open spec fn message(self) -> Seq<char> {
        match self {
            VoiceError::DirOpen { path, source } => "open voices directory `"@ + path@ + "`: "@
                + source@,
            VoiceError::DirEntry(source) => "read directory entry: "@ + source@,
            VoiceError::InvalidFilename(path) => "invalid voice filename: `"@ + path@ + "`"@,
            VoiceError::FileRead { path, source } => "read voice file `"@ + path@ + "`: "@
                + source@,
            VoiceError::InvalidBinSize { path, len } => "voice file `"@ + path@ + "` has "@
                + text::decimal_text(len as nat) + " bytes, which is not a multiple of 256 × 4"@,
            VoiceError::EmptyVoicesDir(path) => "no .bin voice files found in `"@ + path@ + "`"@,
            VoiceError::UnknownVoice { name } => "unknown voice: '"@ + name@ + "'"@,
            VoiceError::ZeroStyles { name } => "voice '"@ + name@ + "' has zero style embeddings"@,
        }
    }

    /// The text of the error.
    pub fn to_string(&self) -> (message: String)
        ensures
            message@ == self.message(),
    {
        match self {
            VoiceError::DirOpen { path, source } => prefixed(
                framed("open voices directory `", path.as_str(), "`: ").as_str(),
                source.as_str(),
            ),
            VoiceError::DirEntry(source) => prefixed("read directory entry: ", source.as_str()),
            VoiceError::InvalidFilename(path) => framed(
                "invalid voice filename: `",
                path.as_str(),
                "`",
            ),
            VoiceError::FileRead { path, source } => prefixed(
                framed("read voice file `", path.as_str(), "`: ").as_str(),
                source.as_str(),
            ),
            VoiceError::InvalidBinSize { path, len } => framed(
                framed("voice file `", path.as_str(), "` has ").as_str(),
                text::decimal(*len as u64).as_str(),
                " bytes, which is not a multiple of 256 × 4",
            ),
            VoiceError::EmptyVoicesDir(path) => framed(
                "no .bin voice files found in `",
                path.as_str(),
                "`",
            ),
            VoiceError::UnknownVoice { name } => framed("unknown voice: '", name.as_str(), "'"),
            VoiceError::ZeroStyles { name } => framed(
                "voice '",
                name.as_str(),
                "' has zero style embeddings",
            ),
        }
    }
}

/// Why a request failed.
#[derive(Debug)]
pub enum AppError {
    Validation(String),
    NotFound,
    Conflict(String),
    Voice(VoiceError),
    Phonemizer(PhonemizerError),
    Inference(InferenceError),
    TaskPanic(String),
}

impl AppError {
    /// The text of the error. That of a voice, phonemizer or inference error stands unchanged.
    pub open spec fn message(self) -> Seq<char> {
        match self {
            AppError::Validation(m) => "bad request: "@ + m@,
            AppError::NotFound => "not found"@,
            AppError::Conflict(m) => "conflict: "@ + m@,
            AppError::Voice(e) => e.message(),
            AppError::Phonemizer(e) => e.message(),
            AppError::Inference(e) => e.message(),
            AppError::TaskPanic(m) => "task panicked: "@ + m@,
        }
    }

    /// The HTTP status of the answer: 400 for a bad request, 404 for a thing that is not there
    /// (an unknown voice among them), 409 for a conflict, 500 for every failure of the server.
    pub open spec fn status(self) -> u16 {
        match self {
            AppError::Validation(_) => 400,
            AppError::NotFound => 404,
            AppError::Conflict(_) => 409,
            AppError::Voice(VoiceError::UnknownVoice { .. }) => 404,
            AppError::Voice(_) => 500,
            AppError::Phonemizer(_) => 500,
            AppError::Inference(_) => 500,
            AppError::TaskPanic(_) => 500,
        }
    }

    /// The text of the error.
    pub fn to_string(&self) -> (message: String)
        ensures
            message@ == self.message(),
    {
        match self {
            AppError::Validation(m) => prefixed("bad request: ", m.as_str()),
            AppError::NotFound => "not found".to_owned(),
            AppError::Conflict(m) => prefixed("conflict: ", m.as_str()),
            AppError::Voice(e) => e.to_string(),
            AppError::Phonemizer(e) => e.to_string(),
            AppError::Inference(e) => e.to_string(),
            AppError::TaskPanic(m) => prefixed("task panicked: ", m.as_str()),
        }
    }

    /// The HTTP status and the body that the error is answered with.
    pub fn into_response(self) -> (response: (u16, String))
        ensures
            response.0 == self.status(),
            response.1@ == self.message(),
    {
        let status: u16 = match &self {
            AppError::Validation(_) => 400,
            AppError::NotFound => 404,
            AppError::Conflict(_) => 409,
            AppError::Voice(VoiceError::UnknownVoice { .. }) => 404,
            AppError::Voice(_) | AppError::Phonemizer(_) | AppError::Inference(_)
            | AppError::TaskPanic(_) => 500,
        };
        (status, self.to_string())
    }
}

impl From<VoiceError> for AppError {
    fn from(e: VoiceError) -> (r: AppError) {
        AppError::Voice(e)
    }
}

impl vstd::std_specs::convert::FromSpecImpl<VoiceError> for AppError {
    open spec fn obeys_from_spec() -> bool {
        true
    }

    open spec fn from_spec(e: VoiceError) -> AppError {
        AppError::Voice(e)
    }
}

impl From<PhonemizerError> for AppError {
    fn from(e: PhonemizerError) -> (r: AppError) {
        AppError::Phonemizer(e)
    }
}

impl vstd::std_specs::convert::FromSpecImpl<PhonemizerError> for AppError {
    open spec fn obeys_from_spec() -> bool {
        true
    }

    open spec fn from_spec(e: PhonemizerError) -> AppError {
        AppError::Phonemizer(e)
    }
}

impl From<InferenceError> for AppError {
    fn from(e: InferenceError) -> (r: AppError) {
        AppError::Inference(e)
    }
}

impl vstd::std_specs::convert::FromSpecImpl<InferenceError> for AppError {
    open spec fn obeys_from_spec() -> bool {
        true
    }

    open spec fn from_spec(e: InferenceError) -> AppError {
        AppError::Inference(e)
    }
}

} // verus!
