//! What the HTTP handlers answer, and the synthesis pipeline.
use crate::error::{AppError, InferenceError, PhonemizerError, VoiceError};
use crate::inference;
use crate::inference::{encode_mp3, settle_run, InferenceInputs, SessionRun, Speed, TtsEngine};
use crate::phonemizer::{Phonemizer, PhonemizerBackend};
use crate::single;
use crate::text;
use crate::voices;
use crate::voices::VoiceBank;
use vstd::prelude::*;

verus! {

/// The body of the answer to a request for the voices.
#[derive(Debug, PartialEq, Eq)]
pub struct VoicesResponse {
    pub voices: Vec<String>,
}

/// The body of the answer to a health check.
#[derive(Debug, PartialEq, Eq)]
pub struct HealthResponse {
    pub status: &'static str,
    pub redis: &'static str,
    pub voices_loaded: usize,
}

/// The answer to a health check: status 200 when Redis was reached and there are voices, else 503.
pub fn health(redis_ok: bool, bank: &VoiceBank) -> (answer: (u16, HealthResponse))
    ensures
        ({
            let healthy = redis_ok && bank@.len() > 0;
            let (code, body) = answer;
            &&& code == (if healthy {
                200u16
            } else {
                503u16
            })
            &&& body.status@ == (if healthy {
                "ok"@
            } else {
                "degraded"@
            })
            &&& body.redis@ == (if redis_ok {
                "ok"@
            } else {
                "error"@
            })
            &&& body.voices_loaded == bank@.len()
        }),
{
    let voices_loaded: usize = bank.voice_names().len();
    let healthy: bool = redis_ok && voices_loaded > 0;
    let body = HealthResponse {
        status: if healthy {
            "ok"
        } else {
            "degraded"
        },
        redis: if redis_ok {
            "ok"
        } else {
            "error"
        },
        voices_loaded,
    };
    let code: u16 = if healthy {
        200
    } else {
        503
    };
    (code, body)
}

/// The answer to a request for the voices: the names of all that are loaded, sorted.
pub fn voices(bank: &VoiceBank) -> (answer: VoicesResponse)
    ensures
        forall|name: Seq<char>|
            bank@.contains_key(name) <==> exists|i: int|
                0 <= i < answer.voices@.len() && (#[trigger] answer.voices@[i])@ == name,
        forall|i: int|
            0 <= i < answer.voices@.len() ==> bank@.contains_key((#[trigger] answer.voices@[i])@),
        answer.voices@.len() == bank@.len(),
        forall|i: int, j: int|
            0 <= i < j < answer.voices@.len() ==> text::precedes(
                (#[trigger] answer.voices@[i])@,
                (#[trigger] answer.voices@[j])@,
            ),
{
    let names = bank.voice_names();
    let mut voices: Vec<String> = Vec::new();
    let mut i: usize = 0;
    while i < names.len()
        invariant
            i <= names.len(),
            voices@.len() == i,
            forall|k: int| 0 <= k < i ==> (#[trigger] voices@[k])@ == names@[k]@,
        decreases names.len() - i,
    {
        voices.push(names[i].to_owned());
        i += 1;
    }
    let answer = VoicesResponse { voices };
    assert forall|name: Seq<char>|
        bank@.contains_key(name) <==> exists|i: int|
            0 <= i < answer.voices@.len() && (#[trigger] answer.voices@[i])@ == name by {
        if bank@.contains_key(name) {
            let k = choose|k: int| 0 <= k < names@.len() && (#[trigger] names@[k])@ == name;
            assert(answer.voices@[k]@ == name);
        }
        if exists|i: int| 0 <= i < answer.voices@.len() && (#[trigger] answer.voices@[i])@ == name {
            let k = choose|k: int|
                0 <= k < answer.voices@.len() && (#[trigger] answer.voices@[k])@ == name;
            assert(names@[k]@ == name);
        }
    }
    answer
}

/// Checks a request: the text must hold more than white space, and the speed must neither be zero
/// or negative nor exceed four.
pub fn validate_synth(text: &str, speed: &Speed) -> (checked: Result<(), AppError>)
    ensures
        if text::is_blank(text@) {
            checked matches Err(AppError::Validation(m)) && m@ == "text must not be empty"@
        } else if single::at_most_zero(single::single(speed.bits)) || single::above(
            single::single(speed.bits),
            4,
        ) {
            checked matches Err(AppError::Validation(m)) && m@ == "speed must be in (0, 4]"@
        } else {
            checked is Ok
        },
{
    if text::blank(text) {
        return Err(AppError::Validation("text must not be empty".to_owned()));
    }
    if single::not_positive(speed.bits) || single::above_four(speed.bits) {
        return Err(AppError::Validation("speed must be in (0, 4]".to_owned()));
    }
    Ok(())
}

/// `inputs` are the inference inputs of `token_ids` spoken by `voice`, or the first error on the
/// way: of the phonemizer, of the voice, of the inputs.
pub open spec fn plans(
    token_ids: Result<Vec<i64>, PhonemizerError>,
    bank: Map<Seq<char>, Seq<u32>>,
    voice: Seq<char>,
    speed: Speed,
    inputs: Result<InferenceInputs, AppError>,
) -> bool {
    match token_ids {
        Err(e) => inputs == Err::<InferenceInputs, AppError>(AppError::Phonemizer(e)),
        Ok(ids) => if !bank.contains_key(voice) {
            inputs matches Err(AppError::Voice(VoiceError::UnknownVoice { name })) && name@ == voice
        } else if bank[voice].len() < 256 {
            inputs matches Err(AppError::Voice(VoiceError::ZeroStyles { name })) && name@ == voice
        } else if ids@.len() == 0 {
            inputs matches Err(AppError::Inference(InferenceError::EmptyTokenIds))
        } else if single::at_most_zero(single::single(speed.bits)) {
            inputs matches Err(AppError::Inference(InferenceError::NonPositiveSpeed(s))) && s.bits
                == speed.bits && s.text@ == speed.text@
        } else {
            inputs matches Ok(i) && i.token_ids@ == ids@ && i.style@ == voices::style_row(
                bank[voice],
                ids@.len(),
            ) && i.speed == speed.bits
        },
    }
}

/// The inference inputs of what a phonemizer gave.
pub fn plan_synthesis(
    token_ids: Result<Vec<i64>, PhonemizerError>,
    bank: &VoiceBank,
    engine: &TtsEngine,
    voice: &str,
    speed: &Speed,
) -> (inputs: Result<InferenceInputs, AppError>)
    ensures
        plans(token_ids, bank@, voice@, *speed, inputs),
{
    let ids = match token_ids {
        Ok(ids) => ids,
        Err(e) => return Err(AppError::Phonemizer(e)),
    };
    let style = match bank.get_style(voice, ids.len()) {
        Ok(style) => style,
        Err(e) => return Err(AppError::Voice(e)),
    };
    match engine.synthesize(ids.as_slice(), style.as_slice(), speed) {
        Ok(inputs) => Ok(inputs),
        Err(e) => Err(AppError::Inference(e)),
    }
}

/// Prepares the synthesis of a text: phonemizes it, picks the voice's style for the number of
/// tokens and checks the inference inputs.
pub fn run_synthesis<B: PhonemizerBackend>(
    phonemizer: &Phonemizer<B>,
    bank: &VoiceBank,
    engine: &TtsEngine,
    text: &str,
    voice: &str,
    speed: &Speed,
) -> (inputs: Result<InferenceInputs, AppError>)
    requires
        phonemizer.backend.accepts(text@),
    ensures
        exists|ipa: Result<String, PhonemizerError>, token_ids: Result<Vec<i64>, PhonemizerError>|
            {
                &&& #[trigger] phonemizer.backend.may_return(text@, ipa)
                &&& #[trigger] phonemizer.tokenizes(ipa, token_ids)
                &&& plans(token_ids, bank@, voice@, *speed, inputs)
            },
{
    let token_ids = phonemizer.phonemize(text);
    let ghost tokens = token_ids;
    let inputs = plan_synthesis(token_ids, bank, engine, voice, speed);
    proof {
        let ipa = choose|ipa: Result<String, PhonemizerError>|
            #[trigger] phonemizer.backend.may_return(text@, ipa) && phonemizer.tokenizes(
                ipa,
                tokens,
            );
        assert(phonemizer.backend.may_return(text@, ipa) && phonemizer.tokenizes(ipa, tokens));
    }
    inputs
}

/// The rate of the samples that the model gives.
pub const SAMPLE_RATE: u32 = 24_000;

/// Ends a synthesis: the MP3 file of the samples that the inference gave.
pub fn finish_synthesis(run: SessionRun) -> (mp3: Result<Vec<u8>, AppError>)
    requires
        run matches SessionRun::Waveform(samples) ==> inference::fits_mp3(samples@.len()),
    ensures
        match run {
            SessionRun::Waveform(samples) => match mp3 {
                Ok(bytes) => inference::encodes_mp3(Ok(bytes), samples@, SAMPLE_RATE),
                Err(e) => e matches AppError::Inference(e) && inference::encodes_mp3(
                    Err(e),
                    samples@,
                    SAMPLE_RATE,
                ),
            },
            _ => mp3 matches Err(AppError::Inference(e)) && run.reported_by(e),
        },
{
    match settle_run(run) {
        Ok(samples) => match encode_mp3(samples.as_slice(), SAMPLE_RATE) {
            Ok(bytes) => Ok(bytes),
            Err(e) => Err(AppError::Inference(e)),
        },
        Err(e) => Err(AppError::Inference(e)),
    }
}

} // verus!
