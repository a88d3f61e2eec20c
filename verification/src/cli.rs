//! Decisions of the command-line synthesizer.
use crate::error::{prefixed, InferenceError, PhonemizerError, VoiceError};
use crate::handlers::SAMPLE_RATE;
use crate::inference;
use crate::inference::{encode_mp3, encode_wav};
use crate::text;
use vstd::prelude::*;

verus! {

/// Why the synthesizer failed.
#[derive(Debug)]
pub enum SynthError {
    Voice(VoiceError),
    Phonemizer(PhonemizerError),
    Inference(InferenceError),
    Io(String),
    EmptyInput,
    PlaybackFailed(String),
}

impl SynthError {
    /// The text of the error.
    pub open spec fn message(self) -> Seq<char> {
        match self {
            SynthError::Voice(e) => "voice bank: "@ + e.message(),
            SynthError::Phonemizer(e) => "phonemizer: "@ + e.message(),
            SynthError::Inference(e) => "model: "@ + e.message(),
            SynthError::Io(m) => "I/O: "@ + m@,
            SynthError::EmptyInput => "empty input text"@,
            SynthError::PlaybackFailed(m) => "playback failed: "@ + m@,
        }
    }

    /// The text of the error.
    pub fn to_string(&self) -> (message: String)
        ensures
            message@ == self.message(),
    {
        match self {
            SynthError::Voice(e) => prefixed("voice bank: ", e.to_string().as_str()),
            SynthError::Phonemizer(e) => prefixed("phonemizer: ", e.to_string().as_str()),
            SynthError::Inference(e) => prefixed("model: ", e.to_string().as_str()),
            SynthError::Io(m) => prefixed("I/O: ", m.as_str()),
            SynthError::EmptyInput => "empty input text".to_owned(),
            SynthError::PlaybackFailed(m) => prefixed("playback failed: ", m.as_str()),
        }
    }
}

/// What stands for the standard input in place of a text.
pub open spec fn is_stdin(argument: Seq<char>) -> bool {
    argument == "-"@
}

/// Whether the text is to be read from the standard input.
pub fn reads_stdin(argument: &str) -> (yes: bool)
    ensures
        yes == is_stdin(argument@),
{
    text::same_text(argument, "-")
}

/// The text to synthesize: the argument as it is, or the standard input without the white space
/// around it. There must be some.
pub fn resolve_text(argument: &str, stdin: &str) -> (resolved: Result<String, SynthError>)
    ensures
        ({
            let text = if is_stdin(argument@) {
                text::trimmed(stdin@)
            } else {
                argument@
            };
            if text.len() == 0 {
                resolved matches Err(SynthError::EmptyInput)
            } else {
                resolved matches Ok(t) && t@ == text
            }
        }),
{
    let text: String = if reads_stdin(argument) {
        text::trim(stdin)
    } else {
        argument.to_owned()
    };
    if text.as_str().is_empty() {
        Err(SynthError::EmptyInput)
    } else {
        Ok(text)
    }
}

/// The formats that audio is saved in.
#[derive(Debug, Clone, Copy, PartialEq, Eq)]
pub enum AudioFormat {
    Mp3,
    Wav,
}

/// The extension of WAV files, in either case.
pub open spec fn marks_wav(extension: Seq<char>) -> bool {
    &&& extension.len() == 3
    &&& extension[0] == 'w' || extension[0] == 'W'
    &&& extension[1] == 'a' || extension[1] == 'A'
    &&& extension[2] == 'v' || extension[2] == 'V'
}

/// The format that a file extension asks for: WAV for `wav` in either case, else MP3.
pub fn output_format(extension: Option<&str>) -> (format: AudioFormat)
    ensures
        format == (if extension matches Some(e) && marks_wav(e@) {
            AudioFormat::Wav
        } else {
            AudioFormat::Mp3
        }),
{
    match extension {
        Some(e) => {
            let c = text::chars_of(e);
            if c.len() == 3 && (c[0] == 'w' || c[0] == 'W') && (c[1] == 'a' || c[1] == 'A') && (c[2]
                == 'v' || c[2] == 'V') {
                AudioFormat::Wav
            } else {
                AudioFormat::Mp3
            }
        },
        None => AudioFormat::Mp3,
    }
}

/// Encodes samples in the format that a file extension asks for.
pub fn encode_output(samples: &[u32], extension: Option<&str>) -> (bytes: Result<
    Vec<u8>,
    InferenceError,
>)
    requires
        if extension matches Some(e) && marks_wav(e@) {
            inference::fits_wav(samples@.len(), SAMPLE_RATE)
        } else {
            inference::fits_mp3(samples@.len())
        },
    ensures
        ({
            if extension matches Some(e) && marks_wav(e@) {
                bytes matches Ok(b) && b@ == inference::wav_file(
                    inference::pcm_samples(samples@),
                    SAMPLE_RATE,
                )
            } else {
                inference::encodes_mp3(bytes, samples@, SAMPLE_RATE)
            }
        }),
{
    match output_format(extension) {
        AudioFormat::Wav => encode_wav(samples, SAMPLE_RATE),
        AudioFormat::Mp3 => encode_mp3(samples, SAMPLE_RATE),
    }
}

} // verus!
