//! Errors: the status that each is answered with and the text that it is reported with.
use crate::cli::SynthError;
use crate::download::DownloadError;
use crate::error::{
    AppError, InferenceError, Mp3BuildError, Mp3EncodeError, PhonemizerError, VoiceError,
};
use crate::text::{decimal, signed_decimal};
use vstd::prelude::*;

verus! {

/// The status tells whose fault it is: a bad request is the client's, and so is a thing or a voice
/// that is not there and a conflict; every other failure is the server's. The body is the text of
/// the error.
pub proof fn status_tells_the_fault(error: AppError, response: (u16, String), text: String)
    requires
        call_ensures(AppError::into_response, (error,), response),
        call_ensures(AppError::to_string, (&error,), text),
    ensures
        response.1@ == text@,
        response.0 == 400 <==> error is Validation,
        response.0 == 404 <==> error is NotFound || (error matches AppError::Voice(
            VoiceError::UnknownVoice { .. },
        )),
        response.0 == 409 <==> error is Conflict,
        response.0 == 400 || response.0 == 404 || response.0 == 409 || response.0 == 500,
{
}

/// The text of a voice, phonemizer or inference error stands unchanged; every other failure of a
/// request says what it is before its own text.
pub proof fn request_errors_are_told(error: AppError, text: String)
    requires
        call_ensures(AppError::to_string, (&error,), text),
    ensures
        match error {
            AppError::Validation(m) => text@ == "bad request: "@ + m@,
            AppError::NotFound => text@ == "not found"@,
            AppError::Conflict(m) => text@ == "conflict: "@ + m@,
            AppError::TaskPanic(m) => text@ == "task panicked: "@ + m@,
            AppError::Voice(e) => forall|inner: String| #[trigger]
                call_ensures(VoiceError::to_string, (&e,), inner) ==> text@ == inner@,
            AppError::Phonemizer(e) => forall|inner: String| #[trigger]
                call_ensures(PhonemizerError::to_string, (&e,), inner) ==> text@ == inner@,
            AppError::Inference(e) => forall|inner: String| #[trigger]
                call_ensures(InferenceError::to_string, (&e,), inner) ==> text@ == inner@,
        },
{
}

/// An error that came of another one is an error of its kind.
pub proof fn errors_keep_their_kind(
    voice: VoiceError,
    phonemizer: PhonemizerError,
    inference: InferenceError,
    a: AppError,
    b: AppError,
    c: AppError,
)
    requires
        call_ensures(<AppError as From<VoiceError>>::from, (voice,), a),
        call_ensures(<AppError as From<PhonemizerError>>::from, (phonemizer,), b),
        call_ensures(<AppError as From<InferenceError>>::from, (inference,), c),
    ensures
        a == AppError::Voice(voice),
        b == AppError::Phonemizer(phonemizer),
        c == AppError::Inference(inference),
{
}

/// The text of a voice error holds the path or the name that it is about, and the reason or size.
pub proof fn voice_errors_are_told(error: VoiceError, text: String)
    requires
        call_ensures(VoiceError::to_string, (&error,), text),
    ensures
        match error {
            VoiceError::DirOpen { path, source } => text@ == "open voices directory `"@ + path@
                + "`: "@ + source@,
            VoiceError::DirEntry(source) => text@ == "read directory entry: "@ + source@,
            VoiceError::InvalidFilename(path) => text@ == "invalid voice filename: `"@ + path@
                + "`"@,
            VoiceError::FileRead { path, source } => text@ == "read voice file `"@ + path@ + "`: "@
                + source@,
            VoiceError::InvalidBinSize { path, len } => forall|count: String| #[trigger]
                call_ensures(decimal, (len as u64,), count) ==> text@ == "voice file `"@ + path@
                    + "` has "@ + count@ + " bytes, which is not a multiple of 256 × 4"@,
            VoiceError::EmptyVoicesDir(path) => text@ == "no .bin voice files found in `"@ + path@
                + "`"@,
            VoiceError::UnknownVoice { name } => text@ == "unknown voice: '"@ + name@ + "'"@,
            VoiceError::ZeroStyles { name } => text@ == "voice '"@ + name@
                + "' has zero style embeddings"@,
        },
{
}

/// The text of a phonemizer error holds the reason, and the path or the setting that it is about.
pub proof fn phonemizer_errors_are_told(error: PhonemizerError, text: String)
    requires
        call_ensures(PhonemizerError::to_string, (&error,), text),
    ensures
        match error {
            PhonemizerError::VocabRead { path, source } => text@ == "read vocab file `"@ + path@
                + "`: "@ + source@,
            PhonemizerError::VocabParse(m) => text@ == "parse vocab JSON: "@ + m@,
            PhonemizerError::MissingBos => text@ == "BOS token '$' missing from vocab"@,
            PhonemizerError::MissingEos => text@ == "EOS token ';' missing from vocab"@,
            PhonemizerError::EspeakInit(m) => text@ == "espeak-ng init: "@ + m@,
            PhonemizerError::EspeakFailed(m) => text@ == "espeak-ng: "@ + m@,
            PhonemizerError::MisakiError(m) => text@ == "misaki-rs: "@ + m@,
            PhonemizerError::UnknownBackend(name) => text@ == "unknown PHONEMIZER backend: '"@
                + name@ + "' (valid options: \"espeak\", \"misaki\")"@,
        },
{
}

/// The text of an inference error holds the reason, and the path, tensor, length or speed that it is
/// about.
pub proof fn inference_errors_are_told(error: InferenceError, text: String)
    requires
        call_ensures(InferenceError::to_string, (&error,), text),
    ensures
        match error {
            InferenceError::OrtSetup(m) => text@ == "ONNX runtime setup failed: "@ + m@,
            InferenceError::ModelLoad { path, message } => text@ == "load model from `"@ + path@
                + "`: "@ + message@,
            InferenceError::EmptyTokenIds => text@ == "token_ids must not be empty"@,
            InferenceError::StyleLength(n) => forall|count: String| #[trigger]
                call_ensures(decimal, (n as u64,), count) ==> text@
                    == "style vector must have exactly 256 elements, got "@ + count@,
            InferenceError::NonPositiveSpeed(speed) => text@ == "speed must be positive, got "@
                + speed.text@,
            InferenceError::TensorBuild { name, message } => text@ == "build `"@ + name@
                + "` tensor: "@ + message@,
            InferenceError::InferenceRun(m) => text@ == "inference run: "@ + m@,
            InferenceError::TensorExtract { name, message } => text@ == "extract `"@ + name@
                + "` tensor: "@ + message@,
            InferenceError::SessionPoisoned => text@
                == "ONNX session mutex poisoned (a previous inference panicked)"@,
            InferenceError::TaskPanic(m) => text@ == "inference task panicked: "@ + m@,
            InferenceError::WavEncode(m) => text@ == "WAV encode: "@ + m@,
            InferenceError::Mp3Init => text@ == "MP3 init failed (lame returned null)"@,
            InferenceError::Mp3Build(e) => forall|inner: String| #[trigger]
                call_ensures(Mp3BuildError::to_string, (&e,), inner) ==> text@ == "MP3 build: "@
                    + inner@,
            InferenceError::Mp3Encode(e) => forall|inner: String| #[trigger]
                call_ensures(Mp3EncodeError::to_string, (&e,), inner) ==> text@ == "MP3 encode: "@
                    + inner@,
        },
{
}

/// The texts of LAME's errors. One that has no name is told by its code.
pub proof fn lame_errors_are_told(
    build: Mp3BuildError,
    encode: Mp3EncodeError,
    built: String,
    encoded: String,
)
    requires
        call_ensures(Mp3BuildError::to_string, (&build,), built),
        call_ensures(Mp3EncodeError::to_string, (&encode,), encoded),
    ensures
        match build {
            Mp3BuildError::Generic => built@ == "error"@,
            Mp3BuildError::NoMem => built@ == "alloc failure"@,
            Mp3BuildError::BadBRate => built@ == "bad bitrate"@,
            Mp3BuildError::BadSampleFreq => built@ == "bad sample frequency"@,
            Mp3BuildError::InternalError => built@ == "internal error"@,
            Mp3BuildError::Other(code) => forall|number: String| #[trigger]
                call_ensures(signed_decimal, (code,), number) ==> built@ == "error code="@
                    + number@,
        },
        match encode {
            Mp3EncodeError::BufferTooSmall => encoded@
                == "output buffer is insufficient for encoder output"@,
            Mp3EncodeError::NoMem => encoded@ == "alloc failure"@,
            Mp3EncodeError::InvalidState => encoded@ == "attempt to use uninitialized encoder"@,
            Mp3EncodeError::PsychoAcoustic => encoded@ == "psycho acoustic problems"@,
            Mp3EncodeError::Other(code) => forall|number: String| #[trigger]
                call_ensures(signed_decimal, (code,), number) ==> encoded@ == "error code="@
                    + number@,
        },
{
}

/// The errors of the command line and of downloads say what failed before its own text.
pub proof fn command_errors_are_told(
    synth: SynthError,
    download: DownloadError,
    spoken: String,
    fetched: String,
)
    requires
        call_ensures(SynthError::to_string, (&synth,), spoken),
        call_ensures(DownloadError::to_string, (&download,), fetched),
    ensures
        match synth {
            SynthError::Voice(e) => forall|inner: String| #[trigger]
                call_ensures(VoiceError::to_string, (&e,), inner) ==> spoken@ == "voice bank: "@
                    + inner@,
            SynthError::Phonemizer(e) => forall|inner: String| #[trigger]
                call_ensures(PhonemizerError::to_string, (&e,), inner) ==> spoken@
                    == "phonemizer: "@ + inner@,
            SynthError::Inference(e) => forall|inner: String| #[trigger]
                call_ensures(InferenceError::to_string, (&e,), inner) ==> spoken@ == "model: "@
                    + inner@,
            SynthError::Io(m) => spoken@ == "I/O: "@ + m@,
            SynthError::EmptyInput => spoken@ == "empty input text"@,
            SynthError::PlaybackFailed(m) => spoken@ == "playback failed: "@ + m@,
        },
        match download {
            DownloadError::Io(m) => fetched@ == "filesystem: "@ + m@,
            DownloadError::Http(m) => fetched@ == "HTTP: "@ + m@,
            DownloadError::Json(m) => fetched@ == "JSON: "@ + m@,
            DownloadError::Url(m) => fetched@ == "URL parse: "@ + m@,
        },
{
}

} // verus!
