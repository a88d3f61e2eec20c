//! Samples, and the files that they are encoded as.
use crate::cli::{encode_output, output_format, AudioFormat};
use crate::error::{AppError, InferenceError};
use crate::handlers::finish_synthesis;
use crate::inference;
use crate::inference::{
    can_encode_mp3, can_encode_wav, encode_mp3, encode_wav, settle_mp3, settle_run, to_pcm, Mp3Run,
    SessionRun,
};
use crate::single::pcm16;
use vstd::prelude::*;

verus! {

/// There are as many 16-bit samples as samples, and each is that of the sample in its place.
pub proof fn every_sample_is_converted(samples: &[u32], pcm: Vec<i16>)
    requires
        call_ensures(to_pcm, (samples,), pcm),
    ensures
        pcm@.len() == samples@.len(),
        forall|i: int, sample: i16|
            0 <= i < samples@.len() && #[trigger] call_ensures(pcm16, (samples@[i],), sample)
                ==> pcm@[i] == sample,
{
}

/// A WAV file is a header of 44 bytes, then two bytes for each sample: in the place of each, its
/// 16-bit sample, the low byte first.
pub proof fn wav_holds_every_sample(
    samples: &[u32],
    sample_rate: u32,
    file: Result<Vec<u8>, InferenceError>,
)
    requires
        call_ensures(encode_wav, (samples, sample_rate), file),
    ensures
        file matches Ok(bytes) && bytes@.len() == 44 + 2 * samples@.len() && forall|
            i: int,
            sample: i16,
        |
            0 <= i < samples@.len() && #[trigger] call_ensures(pcm16, (samples@[i],), sample)
                ==> bytes@[44 + 2 * i] + 0x100 * bytes@[45 + 2 * i] == (if sample < 0 {
                sample + 0x1_0000
            } else {
                sample as int
            }),
{
    let pcm = inference::pcm_samples(samples@);
    let bytes = file->Ok_0;
    inference::wav_is_framed(pcm, sample_rate);
    assert forall|i: int, sample: i16|
        0 <= i < samples@.len() && #[trigger] call_ensures(
            pcm16,
            (samples@[i],),
            sample,
        ) implies bytes@[44 + 2 * i] + 0x100 * bytes@[45 + 2 * i] == (if sample < 0 {
        sample + 0x1_0000
    } else {
        sample as int
    }) by {
        inference::wav_holds_the_samples(pcm, sample_rate, i);
        assert(pcm[i] == sample);
    }
}

proof fn le16_reads_back(n: int)
    requires
        0 <= n < 0x1_0000,
    ensures
        inference::le16(n)[0] + 0x100 * inference::le16(n)[1] == n,
{
}

proof fn le32_reads_back(n: int)
    requires
        0 <= n <= 0xffff_ffff,
    ensures
        ({
            let b = inference::le32(n);
            b[0] + 0x100 * b[1] + 0x1_0000 * b[2] + 0x100_0000 * b[3] == n
        }),
{
    let low = n % 0x1_0000;
    assert(n % 0x100 == low % 0x100);
    assert((n / 0x100) % 0x100 == (low / 0x100) % 0x100);
    le16_reads_back(low);
    le16_reads_back(n / 0x1_0000);
}

/// The header of a WAV file: `RIFF`, the length of the rest, `WAVE`; `fmt `, 16, and the format: PCM,
/// one channel, the rate, the bytes of a second, two bytes and 16 bits for a sample; `data` and the
/// length of the samples. Its numbers have their low bytes first.
pub proof fn wav_header_describes_the_samples(
    samples: &[u32],
    sample_rate: u32,
    bytes: Vec<u8>,
)
    requires
        call_ensures(encode_wav, (samples, sample_rate), Ok(bytes)),
        0 < sample_rate <= 0x7fff_ffff,
        36 + 2 * samples@.len() <= 0xffff_ffff,
    ensures
        ({
            let b = bytes@;
            let number = |at: int|
                b[at] + 0x100 * b[at + 1] + 0x1_0000 * b[at + 2] + 0x100_0000 * b[at + 3];
            &&& b[0] == 'R' as int && b[1] == 'I' as int && b[2] == 'F' as int && b[3] == 'F' as int
            &&& number(4) == 36 + 2 * samples@.len()
            &&& b[8] == 'W' as int && b[9] == 'A' as int && b[10] == 'V' as int && b[11]
                == 'E' as int
            &&& b[12] == 'f' as int && b[13] == 'm' as int && b[14] == 't' as int && b[15]
                == ' ' as int
            &&& number(16) == 16
            &&& b[20] + 0x100 * b[21] == 1
            &&& b[22] + 0x100 * b[23] == 1
            &&& number(24) == sample_rate
            &&& number(28) == 2 * sample_rate
            &&& b[32] + 0x100 * b[33] == 2
            &&& b[34] + 0x100 * b[35] == 16
            &&& b[36] == 'd' as int && b[37] == 'a' as int && b[38] == 't' as int && b[39]
                == 'a' as int
            &&& number(40) == 2 * samples@.len()
        }),
{
    let n = 2 * samples@.len() as int;
    let b = bytes@;
    assert(b == inference::wav_file(inference::pcm_samples(samples@), sample_rate));
    le32_reads_back(36 + n);
    le32_reads_back(16);
    le32_reads_back(sample_rate as int);
    le32_reads_back(2 * sample_rate);
    le32_reads_back(n);
    assert(b.subrange(4, 8) =~= inference::le32(36 + n));
    assert(b.subrange(16, 20) =~= inference::le32(16));
    assert(b.subrange(24, 28) =~= inference::le32(sample_rate as int));
    assert(b.subrange(28, 32) =~= inference::le32(2 * sample_rate));
    assert(b.subrange(40, 44) =~= inference::le32(n));
}

/// What a run of LAME has written is what it gave for the samples, then what it gave at their end. A
/// run that did not get that far fails for its own reason.
pub proof fn mp3_is_what_lame_wrote(run: Mp3Run, mp3: Result<Vec<u8>, InferenceError>)
    requires
        call_ensures(settle_mp3, (run,), mp3),
    ensures
        match run {
            Mp3Run::NoEncoder => mp3 matches Err(InferenceError::Mp3Init),
            Mp3Run::NotBuilt(reason) => mp3 matches Err(InferenceError::Mp3Build(e)) && e == reason,
            Mp3Run::NotEncoded(reason) => mp3 matches Err(InferenceError::Mp3Encode(e)) && e
                == reason,
            Mp3Run::Encoded { head, tail } => {
                &&& mp3 matches Ok(bytes)
                &&& bytes@.len() == head@.len() + tail@.len()
                &&& forall|i: int| 0 <= i < head@.len() ==> #[trigger] bytes@[i] == head@[i]
                &&& forall|i: int|
                    0 <= i < tail@.len() ==> bytes@[head@.len() + i] == #[trigger] tail@[i]
            },
        },
{
}

/// An MP3 file is of every sample: LAME was run on as many 16-bit samples, each that of the sample
/// in its place, at the given rate, and the file is what it wrote.
pub proof fn mp3_is_of_every_sample(
    samples: &[u32],
    sample_rate: u32,
    mp3: Result<Vec<u8>, InferenceError>,
) -> (ran: (Mp3Run, Seq<i16>))
    requires
        call_ensures(encode_mp3, (samples, sample_rate), mp3),
    ensures
        inference::may_run(ran.0, ran.1, sample_rate),
        ran.1.len() == samples@.len(),
        forall|i: int, sample: i16|
            0 <= i < samples@.len() && #[trigger] call_ensures(pcm16, (samples@[i],), sample)
                ==> ran.1[i] == sample,
        match ran.0 {
            Mp3Run::NoEncoder => mp3 matches Err(InferenceError::Mp3Init),
            Mp3Run::NotBuilt(reason) => mp3 matches Err(InferenceError::Mp3Build(e)) && e == reason,
            Mp3Run::NotEncoded(reason) => mp3 matches Err(InferenceError::Mp3Encode(e)) && e
                == reason,
            Mp3Run::Encoded { head, tail } => mp3 matches Ok(bytes) && bytes@ == head@ + tail@,
        },
{
    let pcm = inference::pcm_samples(samples@);
    let run = choose|run: Mp3Run|
        #[trigger] inference::may_run(run, pcm, sample_rate) && run.gives(mp3);
    (run, pcm)
}

/// A synthesis ends in the MP3 file of every sample of its waveform at 24000 samples a second, or in
/// the reason why there is none.
pub proof fn synthesis_encodes_the_waveform(run: SessionRun, mp3: Result<Vec<u8>, AppError>) -> (ran:
    (Mp3Run, Seq<i16>))
    requires
        call_ensures(finish_synthesis, (run,), mp3),
    ensures
        match run {
            SessionRun::Waveform(samples) => {
                &&& inference::may_run(ran.0, ran.1, 24_000)
                &&& ran.1.len() == samples@.len()
                &&& forall|i: int, sample: i16|
                    0 <= i < samples@.len() && #[trigger] call_ensures(
                        pcm16,
                        (samples@[i],),
                        sample,
                    ) ==> ran.1[i] == sample
                &&& match ran.0 {
                    Mp3Run::Encoded { head, tail } => mp3 matches Ok(bytes) && bytes@ == head@
                        + tail@,
                    Mp3Run::NoEncoder => mp3 matches Err(
                        AppError::Inference(InferenceError::Mp3Init),
                    ),
                    Mp3Run::NotBuilt(reason) => mp3 matches Err(
                        AppError::Inference(InferenceError::Mp3Build(e)),
                    ) && e == reason,
                    Mp3Run::NotEncoded(reason) => mp3 matches Err(
                        AppError::Inference(InferenceError::Mp3Encode(e)),
                    ) && e == reason,
                }
            },
            SessionRun::PoolClosed => mp3 matches Err(
                AppError::Inference(InferenceError::SessionPoisoned),
            ),
            SessionRun::TensorRejected { name, message } => mp3 matches Err(
                AppError::Inference(InferenceError::TensorBuild { name: n, message: m }),
            ) && n@ == name@ && m@ == message@,
            SessionRun::Failed(message) => mp3 matches Err(
                AppError::Inference(InferenceError::InferenceRun(m)),
            ) && m@ == message@,
            SessionRun::NoWaveform(message) => mp3 matches Err(
                AppError::Inference(InferenceError::TensorExtract { name, message: m }),
            ) && name@ == "waveform"@ && m@ == message@,
            SessionRun::Panicked(message) => mp3 matches Err(
                AppError::Inference(InferenceError::TaskPanic(m)),
            ) && m@ == message@,
        },
{
    if let SessionRun::Waveform(samples) = run {
        let pcm = inference::pcm_samples(samples@);
        let encoded: Result<Vec<u8>, InferenceError> = match mp3 {
            Ok(bytes) => Ok(bytes),
            Err(AppError::Inference(e)) => Err(e),
            Err(_) => arbitrary(),
        };
        let lame = choose|lame: Mp3Run|
            #[trigger] inference::may_run(lame, pcm, 24_000) && lame.gives(encoded);
        assert(inference::encodes_mp3(encoded, samples@, 24_000));
        (lame, pcm)
    } else {
        arbitrary()
    }
}

/// A waveform comes out of a run as it is; every other run fails for its own reason.
pub proof fn runs_give_their_waveform(run: SessionRun, samples: Result<Vec<u32>, InferenceError>)
    requires
        call_ensures(settle_run, (run,), samples),
    ensures
        match run {
            SessionRun::Waveform(waveform) => samples matches Ok(s) && s@ == waveform@,
            SessionRun::PoolClosed => samples matches Err(InferenceError::SessionPoisoned),
            SessionRun::TensorRejected { name, message } => samples matches Err(
                InferenceError::TensorBuild { name: n, message: m },
            ) && n@ == name@ && m@ == message@,
            SessionRun::Failed(message) => samples matches Err(InferenceError::InferenceRun(m))
                && m@ == message@,
            SessionRun::NoWaveform(message) => samples matches Err(
                InferenceError::TensorExtract { name, message: m },
            ) && name@ == "waveform"@ && m@ == message@,
            SessionRun::Panicked(message) => samples matches Err(InferenceError::TaskPanic(m))
                && m@ == message@,
        },
{
}

/// A file is in the WAV format where its name has the extension `wav`, in any case; else, and where it
/// has none, it is in the MP3 format.
pub proof fn extension_tells_the_format(extension: Option<&str>, format: AudioFormat)
    requires
        call_ensures(output_format, (extension,), format),
    ensures
        format == AudioFormat::Wav <==> (extension matches Some(e) && e@.len() == 3 && (e@[0] == 'w'
            || e@[0] == 'W') && (e@[1] == 'a' || e@[1] == 'A') && (e@[2] == 'v' || e@[2] == 'V')),
        format == AudioFormat::Mp3 || format == AudioFormat::Wav,
{
}

/// What is saved in the WAV format is the WAV file of the samples at 24000 samples a second.
pub proof fn wav_output_is_the_wav_file(
    samples: &[u32],
    extension: Option<&str>,
    format: AudioFormat,
    output: Result<Vec<u8>, InferenceError>,
    wav: Result<Vec<u8>, InferenceError>,
)
    requires
        call_ensures(output_format, (extension,), format),
        call_ensures(encode_output, (samples, extension), output),
        call_ensures(encode_wav, (samples, 24_000u32), wav),
        format == AudioFormat::Wav,
    ensures
        output is Ok,
        wav is Ok,
        output->Ok_0@ == wav->Ok_0@,
{
}

/// What is saved in the MP3 format is the MP3 file of every sample at 24000 samples a second.
pub proof fn mp3_output_is_of_every_sample(
    samples: &[u32],
    extension: Option<&str>,
    format: AudioFormat,
    output: Result<Vec<u8>, InferenceError>,
) -> (ran: (Mp3Run, Seq<i16>))
    requires
        call_ensures(output_format, (extension,), format),
        call_ensures(encode_output, (samples, extension), output),
        format == AudioFormat::Mp3,
    ensures
        inference::may_run(ran.0, ran.1, 24_000),
        ran.1.len() == samples@.len(),
        forall|i: int, sample: i16|
            0 <= i < samples@.len() && #[trigger] call_ensures(pcm16, (samples@[i],), sample)
                ==> ran.1[i] == sample,
        match ran.0 {
            Mp3Run::NoEncoder => output matches Err(InferenceError::Mp3Init),
            Mp3Run::NotBuilt(reason) => output matches Err(InferenceError::Mp3Build(e)) && e
                == reason,
            Mp3Run::NotEncoded(reason) => output matches Err(InferenceError::Mp3Encode(e)) && e
                == reason,
            Mp3Run::Encoded { head, tail } => output matches Ok(bytes) && bytes@ == head@ + tail@,
        },
{
    let pcm = inference::pcm_samples(samples@);
    let run = choose|run: Mp3Run|
        #[trigger] inference::may_run(run, pcm, 24_000) && run.gives(output);
    (run, pcm)
}

/// Samples can be encoded as long as the fields of a WAV header, and LAME, can count them.
pub proof fn samples_are_counted(samples: usize, sample_rate: u32, wav: bool, mp3: bool)
    requires
        call_ensures(can_encode_wav, (samples, sample_rate), wav),
        call_ensures(can_encode_mp3, (samples,), mp3),
    ensures
        wav <==> 0 < sample_rate <= 0x7fff_ffff && 36 + 2 * samples <= 0xffff_ffff,
        mp3 <==> 5 * samples + 28_800 <= 4 * 0x7fff_ffff,
{
}

} // verus!
