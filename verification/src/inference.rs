//! Speech inference: sessions, inputs, and the encoding of the samples that come out.
use crate::error::{InferenceError, Mp3BuildError, Mp3EncodeError};
use crate::single;
use crate::text;
use vstd::prelude::*;

verus! {

/// A speed multiplier: the bits of the single-precision number that it is, and the decimal text
/// that it is reported with.
#[derive(Debug, PartialEq, Eq)]
pub struct Speed {
    pub bits: u32,
    pub text: String,
}

/// The 16-bit samples of single-precision samples.
pub open spec fn pcm_samples(samples: Seq<u32>) -> Seq<i16> {
    samples.map_values(|bits: u32| single::pcm(single::single(bits)) as i16)
}

/// Converts single-precision samples in the range from minus one to one to 16 bits.
pub fn to_pcm(samples: &[u32]) -> (pcm: Vec<i16>)
    ensures
        pcm@ == pcm_samples(samples@),
{
    let mut pcm: Vec<i16> = Vec::new();
    let mut i: usize = 0;
    while i < samples.len()
        invariant
            i <= samples.len(),
            pcm@ =~= pcm_samples(samples@).take(i as int),
        decreases samples.len() - i,
    {
        pcm.push(single::pcm16(samples[i]));
        i += 1;
    }
    assert(pcm_samples(samples@).take(samples@.len() as int) =~= pcm_samples(samples@));
    pcm
}

/// The low 16 bits of a number, in little-endian order.
pub open spec fn le16(n: int) -> Seq<u8> {
    seq![(n % 0x100) as u8, ((n / 0x100) % 0x100) as u8]
}

/// The low 32 bits of a number, in little-endian order.
pub open spec fn le32(n: int) -> Seq<u8> {
    le16(n) + le16(n / 0x1_0000)
}

/// Samples behind one another, each in little-endian order.
pub open spec fn sample_bytes(pcm: Seq<i16>) -> Seq<u8> {
    Seq::new(2 * pcm.len(), |i: int| le16(pcm[i / 2] as int)[i % 2])
}

/// A WAV file of one channel with 16-bit samples.
pub open spec fn wav_file(pcm: Seq<i16>, sample_rate: u32) -> Seq<u8> {
    let data_len = 2 * pcm.len() as int;
    // "RIFF", the length of what follows, "WAVE"
    let riff = seq![0x52u8, 0x49u8, 0x46u8, 0x46u8] + le32(36 + data_len) + seq![
        0x57u8,
        0x41u8,
        0x56u8,
        0x45u8,
    ];
    // "fmt ", its length, PCM, one channel, samples and bytes per second, bytes and bits per sample
    let format = seq![0x66u8, 0x6du8, 0x74u8, 0x20u8] + le32(16) + le16(1) + le16(1) + le32(
        sample_rate as int,
    ) + le32(2 * sample_rate) + le16(2) + le16(16);
    // "data", its length, the samples
    let data = seq![0x64u8, 0x61u8, 0x74u8, 0x61u8] + le32(data_len) + sample_bytes(pcm);
    riff + format + data
}

/// A rate and a number of samples that the fields of a WAV header can hold.
pub open spec fn fits_wav(samples: nat, sample_rate: u32) -> bool {
    0 < sample_rate <= 0x7fff_ffff && 36 + 2 * samples <= 0xffff_ffff
}

/// Whether a WAV file can hold this many samples at this rate.
pub fn can_encode_wav(samples: usize, sample_rate: u32) -> (yes: bool)
    ensures
        yes == fits_wav(samples as nat, sample_rate),
{
    0 < sample_rate && sample_rate <= 0x7fff_ffff && samples <= 0x7fff_ffed
}

/// Starts a WAV file in memory.
///
/// Calls `hound::WavWriter::new` for integer samples and `finalize`. Claims that the file consists of
/// the 44-byte header, and that writing to memory does not fail. A rate of zero would divide by
/// zero, and a rate beyond the header's fields would overflow them.
#[verifier::external_body]
fn start_wav(channels: u16, sample_rate: u32, bits_per_sample: u16) -> (started: Result<
    Vec<u8>,
    String,
>)
    requires
        channels == 1,
        bits_per_sample == 16,
        fits_wav(0, sample_rate),
    ensures
        match started {
            Ok(bytes) => bytes@ == wav_file(Seq::empty(), sample_rate),
            Err(_) => false,
        },
{
    let sample_format = hound::SampleFormat::Int;
    let spec = hound::WavSpec { channels, sample_rate, bits_per_sample, sample_format };
    let mut file = std::io::Cursor::new(Vec::new());
    let writer = hound::WavWriter::new(&mut file, spec).map_err(|e| e.to_string())?;
    writer.finalize().map_err(|e| e.to_string())?;
    Ok(file.into_inner())
}

/// Adds a sample to a WAV file in memory.
///
/// Calls `hound::WavWriter::new_append`, `write_sample` and `finalize`. Claims that the sample comes
/// behind the others, that the header counts it, and that writing to memory does not fail. More
/// samples than the header's fields can count would overflow them.
#[verifier::external_body]
fn append_wav(file: Vec<u8>, sample: i16) -> (appended: Result<Vec<u8>, String>)
    requires
        exists|pcm: Seq<i16>, sample_rate: u32|
            file@ == #[trigger] wav_file(pcm, sample_rate) && fits_wav(pcm.len() + 1, sample_rate),
    ensures
        forall|pcm: Seq<i16>, sample_rate: u32|
            file@ == #[trigger] wav_file(pcm, sample_rate) && fits_wav(pcm.len() + 1, sample_rate)
                ==> match appended {
                Ok(bytes) => bytes@ == wav_file(pcm.push(sample), sample_rate),
                Err(_) => false,
            },
{
    let mut file = std::io::Cursor::new(file);
    let mut writer = hound::WavWriter::new_append(&mut file).map_err(|e| e.to_string())?;
    writer.write_sample(sample).map_err(|e| e.to_string())?;
    writer.finalize().map_err(|e| e.to_string())?;
    Ok(file.into_inner())
}

/// Encodes single-precision samples in the range from minus one to one as a 16-bit PCM WAV file.
pub fn encode_wav(samples: &[u32], sample_rate: u32) -> (file: Result<Vec<u8>, InferenceError>)
    requires
        fits_wav(samples@.len(), sample_rate),
    ensures
        file matches Ok(bytes) && bytes@ == wav_file(pcm_samples(samples@), sample_rate),
{
    let mut bytes = match start_wav(1, sample_rate, 16) {
        Ok(bytes) => bytes,
        Err(message) => return Err(InferenceError::WavEncode(message)),
    };
    let ghost all = pcm_samples(samples@);
    assert(all.take(0) =~= Seq::empty());
    let mut i: usize = 0;
    while i < samples.len()
        invariant
            i <= samples.len(),
            fits_wav(samples@.len(), sample_rate),
            all == pcm_samples(samples@),
            bytes@ == wav_file(all.take(i as int), sample_rate),
        decreases samples.len() - i,
    {
        let sample: i16 = single::pcm16(samples[i]);
        assert(all.take(i as int).push(sample) =~= all.take(i + 1));
        bytes = match append_wav(bytes, sample) {
            Ok(bytes) => bytes,
            Err(message) => return Err(InferenceError::WavEncode(message)),
        };
        i += 1;
    }
    assert(all.take(samples@.len() as int) =~= all);
    Ok(bytes)
}

#[verifier::external_type_specification]
#[verifier::external_body]
pub struct ExBuilder(mp3lame_encoder::Builder);

#[verifier::external_type_specification]
#[verifier::external_body]
pub struct ExEncoder(mp3lame_encoder::Encoder);

#[verifier::external_type_specification]
#[verifier::external_body]
pub struct ExBuildError(mp3lame_encoder::BuildError);

#[verifier::external_type_specification]
#[verifier::external_body]
pub struct ExEncodeError(mp3lame_encoder::EncodeError);

/// `Builder::new` of `mp3lame_encoder`, which allocates the encoder's parameters. Nothing is
/// claimed: the allocation may fail.
pub assume_specification[ mp3lame_encoder::Builder::new ]() -> (builder: Option<
    mp3lame_encoder::Builder,
>)
;

/// `Builder::with_sample_rate` of `mp3lame_encoder`. Claims that LAME takes every input rate but
/// zero.
pub assume_specification[ mp3lame_encoder::Builder::with_sample_rate ](
    builder: mp3lame_encoder::Builder,
    rate: u32,
) -> (set: Result<mp3lame_encoder::Builder, mp3lame_encoder::BuildError>)
    ensures
        set is Ok <==> rate > 0,
;

/// `Builder::with_num_channels` of `mp3lame_encoder`. Claims that LAME takes one channel or two.
pub assume_specification[ mp3lame_encoder::Builder::with_num_channels ](
    builder: mp3lame_encoder::Builder,
    num: u8,
) -> (set: Result<mp3lame_encoder::Builder, mp3lame_encoder::BuildError>)
    ensures
        set is Ok <==> 1 <= num <= 2,
;

/// `Builder::build` of `mp3lame_encoder`, which initialises LAME with the parameters that were
/// set. Nothing is claimed: whether they go together is LAME's decision.
pub assume_specification[ mp3lame_encoder::Builder::build ](
    builder: mp3lame_encoder::Builder,
) -> (encoder: Result<mp3lame_encoder::Encoder, mp3lame_encoder::BuildError>)
;

/// How much effort LAME puts into an encoding.
#[derive(Debug, Clone, Copy, PartialEq, Eq)]
pub enum Mp3Quality {
    Good,
}

/// The bit rate of an MP3 file.
#[derive(Debug, Clone, Copy, PartialEq, Eq)]
pub enum Mp3Bitrate {
    Kbps128,
}

/// Sets the quality. Calls `Builder::with_quality` of `mp3lame_encoder` and claims that LAME takes
/// every quality.
#[verifier::external_body]
fn with_quality(builder: mp3lame_encoder::Builder, quality: Mp3Quality) -> (set: Result<
    mp3lame_encoder::Builder,
    mp3lame_encoder::BuildError,
>)
    ensures
        set is Ok,
{
    builder.with_quality(
        match quality {
            Mp3Quality::Good => mp3lame_encoder::Quality::Good,
        },
    )
}

/// Sets the bit rate. Calls `Builder::with_brate` of `mp3lame_encoder` and claims that LAME takes
/// every bit rate at this point.
#[verifier::external_body]
fn with_brate(builder: mp3lame_encoder::Builder, brate: Mp3Bitrate) -> (set: Result<
    mp3lame_encoder::Builder,
    mp3lame_encoder::BuildError,
>)
    ensures
        set is Ok,
{
    builder.with_brate(
        match brate {
            Mp3Bitrate::Kbps128 => mp3lame_encoder::Bitrate::Kbps128,
        },
    )
}

/// The library's own form of a `BuildError` of `mp3lame_encoder`, variant for variant. Nothing is
/// claimed of which one it is.
#[verifier::external_body]
fn build_error(e: mp3lame_encoder::BuildError) -> Mp3BuildError {
    match e {
        mp3lame_encoder::BuildError::Generic => Mp3BuildError::Generic,
        mp3lame_encoder::BuildError::NoMem => Mp3BuildError::NoMem,
        mp3lame_encoder::BuildError::BadBRate => Mp3BuildError::BadBRate,
        mp3lame_encoder::BuildError::BadSampleFreq => Mp3BuildError::BadSampleFreq,
        mp3lame_encoder::BuildError::InternalError => Mp3BuildError::InternalError,
        mp3lame_encoder::BuildError::Other(code) => Mp3BuildError::Other(code),
    }
}

/// The library's own form of an `EncodeError` of `mp3lame_encoder`, variant for variant. Nothing
/// is claimed of which one it is.
#[verifier::external_body]
fn encode_error(e: mp3lame_encoder::EncodeError) -> Mp3EncodeError {
    match e {
        mp3lame_encoder::EncodeError::BufferTooSmall => Mp3EncodeError::BufferTooSmall,
        mp3lame_encoder::EncodeError::NoMem => Mp3EncodeError::NoMem,
        mp3lame_encoder::EncodeError::InvalidState => Mp3EncodeError::InvalidState,
        mp3lame_encoder::EncodeError::PsychoAcoustic => Mp3EncodeError::PsychoAcoustic,
        mp3lame_encoder::EncodeError::Other(code) => Mp3EncodeError::Other(code),
    }
}

/// The bytes that LAME mostly needs for a number of samples: a quarter more than one for each, and
/// 7200.
pub open spec fn buffer_size(samples: nat) -> nat {
    samples + (samples + 3) / 4 + 7200
}

/// The bytes that are set aside for the encoding of a number of samples. At 128 kbps a second of
/// sound takes 16000 bytes, which is more than the buffer size at low rates. No more than LAME can
/// count are set aside.
pub open spec fn mp3_capacity(samples: nat, sample_rate: u32) -> nat {
    let sound = if sample_rate == 0 {
        0
    } else {
        samples * 16_000 / (sample_rate as nat) + 7201
    };
    if sound <= buffer_size(samples) {
        buffer_size(samples)
    } else if sound <= 0x7fff_ffff {
        sound
    } else {
        0x7fff_ffff
    }
}

/// `max_required_buffer_size` of `mp3lame_encoder`. Claims what it computes, where that does not
/// overflow.
pub assume_specification[ mp3lame_encoder::max_required_buffer_size ](sample_number: usize) -> (size:
    usize)
    requires
        buffer_size(sample_number as nat) <= usize::MAX,
    ensures
        size == buffer_size(sample_number as nat),
;

/// Encodes samples of one channel into a buffer of the given capacity.
///
/// Calls `Encoder::encode_to_vec` of `mp3lame_encoder`. Claims that no samples give no bytes. Nothing
/// is claimed of the bytes that other samples give: they rest on LAME's floating-point arithmetic,
/// and how many fit rests on what the allocator adds to the capacity.
#[verifier::external_body]
fn lame_encode(encoder: mp3lame_encoder::Encoder, pcm: &Vec<i16>, capacity: usize) -> (encoded: (
    mp3lame_encoder::Encoder,
    Result<Vec<u8>, mp3lame_encoder::EncodeError>,
))
    requires
        buffer_size(pcm@.len()) <= capacity <= i32::MAX,
    ensures
        match encoded {
            (_, Ok(bytes)) => pcm@.len() == 0 ==> bytes@.len() == 0,
            (_, Err(_)) => pcm@.len() > 0,
        },
{
    let mut encoder = encoder;
    let mut mp3 = Vec::with_capacity(capacity);
    let written = encoder.encode_to_vec(mp3lame_encoder::MonoPcm(pcm.as_slice()), &mut mp3);
    (encoder, written.map(|_| mp3))
}

/// Ends an encoding, with a buffer of the given capacity.
///
/// Calls `Encoder::flush_to_vec` of `mp3lame_encoder`. Nothing is claimed of the bytes that were
/// still to come out.
#[verifier::external_body]
fn lame_flush(encoder: mp3lame_encoder::Encoder, capacity: usize) -> (flushed: Result<
    Vec<u8>,
    mp3lame_encoder::EncodeError,
>)
    requires
        7200 <= capacity <= i32::MAX,
{
    let mut encoder = encoder;
    let mut mp3 = Vec::with_capacity(capacity);
    let written = encoder.flush_to_vec::<mp3lame_encoder::FlushNoGap>(&mut mp3);
    written.map(|_| mp3)
}

/// `builder` was set to one channel of the given rate, good quality and 128 kbps.
spec fn is_mono_builder(builder: mp3lame_encoder::Builder, sample_rate: u32) -> bool {
    exists|
        b0: mp3lame_encoder::Builder,
        b1: mp3lame_encoder::Builder,
        b2: mp3lame_encoder::Builder,
        b3: mp3lame_encoder::Builder,
    |
        {
            &&& #[trigger] call_ensures(
                mp3lame_encoder::Builder::with_sample_rate,
                (b0, sample_rate),
                Ok(b1),
            )
            &&& #[trigger] call_ensures(
                mp3lame_encoder::Builder::with_num_channels,
                (b1, 1u8),
                Ok(b2),
            )
            &&& #[trigger] call_ensures(with_quality, (b2, Mp3Quality::Good), Ok(b3))
            &&& #[trigger] call_ensures(with_brate, (b3, Mp3Bitrate::Kbps128), Ok(builder))
        }
}

/// `encoder` was set up for one channel of the given rate, good quality and 128 kbps.
spec fn is_mono_encoder(encoder: mp3lame_encoder::Encoder, sample_rate: u32) -> bool {
    exists|builder: mp3lame_encoder::Builder|
        {
            &&& is_mono_builder(builder, sample_rate)
            &&& #[trigger] call_ensures(mp3lame_encoder::Builder::build, (builder,), Ok(encoder))
        }
}

/// An encoder for one channel of the given rate, good quality and 128 kbps was refused with `e`: the
/// rate itself, or all of it together.
spec fn refuses_mono_encoder(e: mp3lame_encoder::BuildError, sample_rate: u32) -> bool {
    ||| exists|builder: mp3lame_encoder::Builder| #[trigger]
        call_ensures(
            mp3lame_encoder::Builder::with_sample_rate,
            (builder, sample_rate),
            Err(e),
        )
    ||| exists|builder: mp3lame_encoder::Builder|
        {
            &&& is_mono_builder(builder, sample_rate)
            &&& #[trigger] call_ensures(mp3lame_encoder::Builder::build, (builder,), Err(e))
        }
}

/// An encoder for one channel of the given rate, good quality and 128 kbps was fed with `pcm`: it
/// gave `head` and became `fed`.
spec fn encodes_samples(
    pcm: Seq<i16>,
    sample_rate: u32,
    fed: mp3lame_encoder::Encoder,
    head: Result<Vec<u8>, mp3lame_encoder::EncodeError>,
) -> bool {
    exists|encoder: mp3lame_encoder::Encoder, samples: Vec<i16>|
        {
            &&& is_mono_encoder(encoder, sample_rate)
            &&& samples@ == pcm
            &&& #[trigger] call_ensures(
                lame_encode,
                (encoder, &samples, mp3_capacity(pcm.len(), sample_rate) as usize),
                (fed, head),
            )
        }
}

/// Encoding `pcm` at the given rate failed with `e`: with the samples, or at their end.
spec fn fails_to_encode(
    e: mp3lame_encoder::EncodeError,
    pcm: Seq<i16>,
    sample_rate: u32,
) -> bool {
    exists|
        fed: mp3lame_encoder::Encoder,
        head: Result<Vec<u8>, mp3lame_encoder::EncodeError>,
    |
        {
            &&& #[trigger] encodes_samples(pcm, sample_rate, fed, head)
            &&& head == Err::<Vec<u8>, mp3lame_encoder::EncodeError>(e) || (head is Ok
                && call_ensures(lame_flush, (fed, 7200usize), Err(e)))
        }
}

/// How far LAME came with its samples.
#[derive(Debug, PartialEq, Eq)]
pub enum Mp3Run {
    /// There was no memory for an encoder.
    NoEncoder,
    /// The encoder could not be set up.
    NotBuilt(Mp3BuildError),
    /// The encoder gave up.
    NotEncoded(Mp3EncodeError),
    /// What the encoder gave for the samples, and what it gave at the end.
    Encoded { head: Vec<u8>, tail: Vec<u8> },
}

impl Mp3Run {
    /// `mp3` is the file that this run has written, or the error that tells how far it came.
    pub open spec fn gives(self, mp3: Result<Vec<u8>, InferenceError>) -> bool {
        match self {
            Mp3Run::NoEncoder => mp3 matches Err(InferenceError::Mp3Init),
            Mp3Run::NotBuilt(e) => mp3 matches Err(InferenceError::Mp3Build(f)) && f == e,
            Mp3Run::NotEncoded(e) => mp3 matches Err(InferenceError::Mp3Encode(f)) && f == e,
            Mp3Run::Encoded { head, tail } => mp3 matches Ok(bytes) && bytes@ == head@ + tail@,
        }
    }
}

/// The file of a run of LAME: what it gave for the samples, then what it gave at the end.
pub fn settle_mp3(run: Mp3Run) -> (mp3: Result<Vec<u8>, InferenceError>)
    ensures
        run.gives(mp3),
{
    match run {
        Mp3Run::NoEncoder => Err(InferenceError::Mp3Init),
        Mp3Run::NotBuilt(e) => Err(InferenceError::Mp3Build(e)),
        Mp3Run::NotEncoded(e) => Err(InferenceError::Mp3Encode(e)),
        Mp3Run::Encoded { head, tail } => {
            let ghost first = head@;
            let mut mp3 = head;
            let mut i: usize = 0;
            while i < tail.len()
                invariant
                    i <= tail.len(),
                    mp3@ =~= first + tail@.take(i as int),
                decreases tail.len() - i,
            {
                mp3.push(tail[i]);
                i += 1;
            }
            assert(tail@.take(tail@.len() as int) =~= tail@);
            Ok(mp3)
        },
    }
}

/// Encoding `pcm` at the given rate gave `head` for the samples and `tail` at their end.
spec fn completes(head: Vec<u8>, tail: Vec<u8>, pcm: Seq<i16>, sample_rate: u32) -> bool {
    exists|fed: mp3lame_encoder::Encoder|
        {
            &&& #[trigger] encodes_samples(pcm, sample_rate, fed, Ok(head))
            &&& call_ensures(lame_flush, (fed, 7200usize), Ok(tail))
        }
}

/// `run` is how far LAME came with the samples `pcm`, set up for one channel of the given rate,
/// good quality and 128 kbps. A failure is that of a call with these arguments.
pub closed spec fn may_run(run: Mp3Run, pcm: Seq<i16>, sample_rate: u32) -> bool {
    match run {
        Mp3Run::NoEncoder => call_ensures(mp3lame_encoder::Builder::new, (), None),
        Mp3Run::NotBuilt(e) => exists|outside: mp3lame_encoder::BuildError|
            {
                &&& #[trigger] call_ensures(build_error, (outside,), e)
                &&& refuses_mono_encoder(outside, sample_rate)
            },
        Mp3Run::NotEncoded(e) => exists|outside: mp3lame_encoder::EncodeError|
            {
                &&& #[trigger] call_ensures(encode_error, (outside,), e)
                &&& fails_to_encode(outside, pcm, sample_rate)
            },
        Mp3Run::Encoded { head, tail } => completes(head, tail, pcm, sample_rate),
    }
}

/// A rate of zero is never encoded: it is refused before there is an encoder.
pub proof fn no_rate_is_not_encoded(run: Mp3Run, pcm: Seq<i16>)
    requires
        may_run(run, pcm, 0),
    ensures
        run is NoEncoder || run is NotBuilt,
{
    assert forall|builder: mp3lame_encoder::Builder| !is_mono_builder(builder, 0) by {}
    assert forall|encoder: mp3lame_encoder::Encoder| !is_mono_encoder(encoder, 0) by {}
}

/// No samples give no bytes: all that comes out comes at the end.
pub proof fn no_samples_give_no_bytes(head: Vec<u8>, tail: Vec<u8>, sample_rate: u32)
    requires
        may_run(Mp3Run::Encoded { head, tail }, Seq::empty(), sample_rate),
    ensures
        head@.len() == 0,
{
}

/// Sets LAME up for one channel of the given rate, good quality and 128 kbps.
fn mono_encoder(sample_rate: u32) -> (encoder: Result<mp3lame_encoder::Encoder, Mp3Run>)
    ensures
        match encoder {
            Ok(e) => is_mono_encoder(e, sample_rate),
            Err(run) => forall|pcm: Seq<i16>| #[trigger] may_run(run, pcm, sample_rate),
        },
{
    let b0 = match mp3lame_encoder::Builder::new() {
        Some(builder) => builder,
        None => return Err(Mp3Run::NoEncoder),
    };
    let b1 = match b0.with_sample_rate(sample_rate) {
        Ok(builder) => builder,
        Err(e) => {
            assert(refuses_mono_encoder(e, sample_rate));
            return Err(Mp3Run::NotBuilt(build_error(e)));
        },
    };
    let b2 = match b1.with_num_channels(1u8) {
        Ok(builder) => builder,
        Err(e) => return Err(Mp3Run::NotBuilt(build_error(e))),
    };
    let b3 = match with_quality(b2, Mp3Quality::Good) {
        Ok(builder) => builder,
        Err(e) => return Err(Mp3Run::NotBuilt(build_error(e))),
    };
    let b4 = match with_brate(b3, Mp3Bitrate::Kbps128) {
        Ok(builder) => builder,
        Err(e) => return Err(Mp3Run::NotBuilt(build_error(e))),
    };
    assert(is_mono_builder(b4, sample_rate));
    match b4.build() {
        Ok(encoder) => Ok(encoder),
        Err(e) => {
            assert(refuses_mono_encoder(e, sample_rate));
            Err(Mp3Run::NotBuilt(build_error(e)))
        },
    }
}

/// The bytes to set aside for the encoding of a number of samples.
fn capacity_for(samples: usize, sample_rate: u32) -> (capacity: usize)
    requires
        fits_mp3(samples as nat),
    ensures
        capacity == mp3_capacity(samples as nat, sample_rate),
        buffer_size(samples as nat) <= capacity <= 0x7fff_ffff,
{
    let size: usize = mp3lame_encoder::max_required_buffer_size(samples);
    if sample_rate == 0 {
        return size;
    }
    let sound: u64 = samples as u64 * 16_000 / (sample_rate as u64) + 7201;
    if sound <= size as u64 {
        size
    } else if sound <= 0x7fff_ffff {
        sound as usize
    } else {
        0x7fff_ffff
    }
}

/// Runs LAME on samples of one channel.
fn run_lame(pcm: &Vec<i16>, sample_rate: u32) -> (run: Mp3Run)
    requires
        fits_mp3(pcm@.len()),
    ensures
        may_run(run, pcm@, sample_rate),
{
    let encoder = match mono_encoder(sample_rate) {
        Ok(encoder) => encoder,
        Err(run) => return run,
    };
    let capacity: usize = capacity_for(pcm.len(), sample_rate);
    let (fed, encoded) = lame_encode(encoder, pcm, capacity);
    assert(capacity == mp3_capacity(pcm@.len(), sample_rate) as usize);
    assert(call_ensures(
        lame_encode,
        (encoder, pcm, mp3_capacity(pcm@.len(), sample_rate) as usize),
        (fed, encoded),
    ));
    assert(encodes_samples(pcm@, sample_rate, fed, encoded));
    let head = match encoded {
        Ok(head) => head,
        Err(e) => {
            assert(fails_to_encode(e, pcm@, sample_rate));
            return Mp3Run::NotEncoded(encode_error(e));
        },
    };
    let tail = match lame_flush(fed, 7200) {
        Ok(tail) => tail,
        Err(e) => {
            assert(fails_to_encode(e, pcm@, sample_rate));
            return Mp3Run::NotEncoded(encode_error(e));
        },
    };
    assert(encodes_samples(pcm@, sample_rate, fed, Ok(head)));
    assert(completes(head, tail, pcm@, sample_rate));
    Mp3Run::Encoded { head, tail }
}

/// A number of samples whose encoding LAME can count.
pub open spec fn fits_mp3(samples: nat) -> bool {
    buffer_size(samples) <= 0x7fff_ffff
}

/// Whether LAME can count the encoding of this many samples.
pub fn can_encode_mp3(samples: usize) -> (yes: bool)
    ensures
        yes == fits_mp3(samples as nat),
{
    samples <= 0x7fff_ffff && samples + (samples + 3) / 4 <= 0x7fff_ffff - 7200
}

/// `mp3` is the outcome of encoding single-precision samples: of a run of LAME on their 16-bit
/// samples.
pub open spec fn encodes_mp3(
    mp3: Result<Vec<u8>, InferenceError>,
    samples: Seq<u32>,
    sample_rate: u32,
) -> bool {
    exists|run: Mp3Run|
        #[trigger] may_run(run, pcm_samples(samples), sample_rate) && run.gives(mp3)
}

/// Encodes single-precision samples in the range from minus one to one as an MP3 file of one
/// channel with a constant bit rate of 128 kbps.
pub fn encode_mp3(samples: &[u32], sample_rate: u32) -> (mp3: Result<Vec<u8>, InferenceError>)
    requires
        fits_mp3(samples@.len()),
    ensures
        encodes_mp3(mp3, samples@, sample_rate),
{
    let pcm = to_pcm(samples);
    let run = run_lame(&pcm, sample_rate);
    let ghost ran = run;
    let mp3 = settle_mp3(run);
    assert(may_run(ran, pcm_samples(samples@), sample_rate) && ran.gives(mp3));
    mp3
}

/// Why an inference session could not be made.
#[derive(Debug)]
pub enum SessionFailure {
    /// The runtime rejected the session's options.
    Setup(String),
    /// The model file could not be loaded.
    Model(String),
}

impl SessionFailure {
    /// `e` reports this failure for the model at `model_path`.
    pub open spec fn reported_by(self, model_path: Seq<char>, e: InferenceError) -> bool {
        match self {
            SessionFailure::Setup(m) => e matches InferenceError::OrtSetup(n) && n@ == m@,
            SessionFailure::Model(m) => e matches InferenceError::ModelLoad { path, message }
                && path@ == model_path && message@ == m@,
        }
    }
}

/// The first failure among the first `n` attempts to make a session.
pub open spec fn first_failure(
    attempts: Seq<Result<(), SessionFailure>>,
    n: nat,
) -> Option<SessionFailure>
    decreases n,
{
    if n == 0 {
        None
    } else {
        match first_failure(attempts, (n - 1) as nat) {
            Some(failure) => Some(failure),
            None => match attempts[n - 1] {
                Ok(_) => None,
                Err(failure) => Some(failure),
            },
        }
    }
}

/// The number of sessions that a setting asks for: two unless it writes a number.
pub open spec fn pool_size_of(variable: Option<Seq<char>>) -> nat {
    match variable {
        Some(v) => if text::is_number(v) && text::digits_value(text::number_digits(v))
            <= usize::MAX {
            text::digits_value(text::number_digits(v))
        } else {
            2
        },
        None => 2,
    }
}

/// The number of sessions that a setting asks for.
pub fn pool_size(variable: Option<&str>) -> (size: usize)
    ensures
        size == pool_size_of(
            match variable {
                Some(v) => Some(v@),
                None => None,
            },
        ),
{
    match variable {
        Some(v) => match text::parse_number(v, usize::MAX as u64) {
            Some(n) => n as usize,
            None => 2,
        },
        None => 2,
    }
}

/// The named tensors of one inference.
#[derive(Debug)]
pub struct InferenceInputs {
    /// `input_ids`, one row.
    pub token_ids: Vec<i64>,
    /// `style`, one row of single-precision bit patterns.
    pub style: Vec<u32>,
    /// `speed`, one single-precision bit pattern.
    pub speed: u32,
}

/// What fills a tensor.
#[derive(Debug, PartialEq, Eq)]
pub enum TensorData {
    Integers(Vec<i64>),
    /// Single-precision bit patterns.
    Singles(Vec<u32>),
}

/// A named tensor.
#[derive(Debug, PartialEq, Eq)]
pub struct TensorSpec {
    pub name: &'static str,
    pub shape: Vec<usize>,
    pub data: TensorData,
}

impl InferenceInputs {
    /// The tensors that the model takes, in order.
    pub fn tensors(self) -> (tensors: Vec<TensorSpec>)
        ensures
            tensors@.len() == 3,
            tensors@[0].name@ == "input_ids"@,
            tensors@[0].shape@ == seq![1usize, self.token_ids.len()],
            tensors@[0].data == TensorData::Integers(self.token_ids),
            tensors@[1].name@ == "style"@,
            tensors@[1].shape@ == seq![1usize, 256usize],
            tensors@[1].data == TensorData::Singles(self.style),
            tensors@[2].name@ == "speed"@,
            tensors@[2].shape@ == seq![1usize],
            tensors@[2].data matches TensorData::Singles(speed) && speed@ == seq![self.speed],
    {
        let mut ids: Vec<usize> = Vec::new();
        ids.push(1);
        ids.push(self.token_ids.len());
        let mut style: Vec<usize> = Vec::new();
        style.push(1);
        style.push(256);
        let mut speed: Vec<usize> = Vec::new();
        speed.push(1);
        let mut speeds: Vec<u32> = Vec::new();
        speeds.push(self.speed);
        let mut tensors: Vec<TensorSpec> = Vec::new();
        tensors.push(
            TensorSpec {
                name: "input_ids",
                shape: ids,
                data: TensorData::Integers(self.token_ids),
            },
        );
        tensors.push(
            TensorSpec { name: "style", shape: style, data: TensorData::Singles(self.style) },
        );
        tensors.push(
            TensorSpec { name: "speed", shape: speed, data: TensorData::Singles(speeds) },
        );
        tensors
    }
}

/// How far an inference came.
#[derive(Debug)]
pub enum SessionRun {
    /// No session will ever be free again.
    PoolClosed,
    /// The tensor of this name could not be built.
    TensorRejected { name: &'static str, message: String },
    /// The session failed.
    Failed(String),
    /// The session's outputs do not hold the samples.
    NoWaveform(String),
    /// The task panicked.
    Panicked(String),
    /// The samples, as single-precision bit patterns.
    Waveform(Vec<u32>),
}

impl SessionRun {
    /// `e` reports how far this run came before it failed.
    pub open spec fn reported_by(self, e: InferenceError) -> bool {
        match self {
            SessionRun::PoolClosed => e is SessionPoisoned,
            SessionRun::TensorRejected { name, message } => e matches InferenceError::TensorBuild {
                name: n,
                message: m,
            } && n@ == name@ && m@ == message@,
            SessionRun::Failed(m) => e matches InferenceError::InferenceRun(n) && n@ == m@,
            SessionRun::NoWaveform(m) => e matches InferenceError::TensorExtract { name, message }
                && name@ == "waveform"@ && message@ == m@,
            SessionRun::Panicked(m) => e matches InferenceError::TaskPanic(n) && n@ == m@,
            SessionRun::Waveform(_) => false,
        }
    }
}

/// The samples of an inference, or the error that tells how far it came.
pub fn settle_run(run: SessionRun) -> (samples: Result<Vec<u32>, InferenceError>)
    ensures
        match run {
            SessionRun::Waveform(waveform) => samples == Ok::<Vec<u32>, InferenceError>(waveform),
            _ => samples matches Err(e) && run.reported_by(e),
        },
{
    match run {
        SessionRun::PoolClosed => Err(InferenceError::SessionPoisoned),
        SessionRun::TensorRejected { name, message } => Err(
            InferenceError::TensorBuild { name, message },
        ),
        SessionRun::Failed(e) => Err(InferenceError::InferenceRun(e)),
        SessionRun::NoWaveform(e) => Err(
            InferenceError::TensorExtract { name: "waveform", message: e },
        ),
        SessionRun::Panicked(e) => Err(InferenceError::TaskPanic(e)),
        SessionRun::Waveform(w) => Ok(w),
    }
}

/// A pool of inference sessions, which are known by their numbers.
///
/// A session is either idle or checked out. Each inference checks one out and gives it back when
/// it has ended, however it has ended.
#[derive(Debug)]
pub struct TtsEngine {
    capacity: usize,
    idle: Vec<usize>,
}

impl TtsEngine {
    /// The number of sessions.
    pub closed spec fn capacity(&self) -> nat {
        self.capacity as nat
    }

    /// The idle sessions, the one that is checked out next first.
    pub closed spec fn idle(&self) -> Seq<usize> {
        self.idle@
    }

    /// The session is checked out.
    pub open spec fn is_out(&self, session: usize) -> bool {
        session < self.capacity() && !self.idle().contains(session)
    }

    /// The pool becomes `after` when `session` is checked out of it: the one that has been idle for
    /// the longest time, if any is.
    pub open spec fn checks_out(self, after: TtsEngine, session: Option<usize>) -> bool {
        &&& after.capacity() == self.capacity()
        &&& if self.idle().len() == 0 {
            session is None && after.idle() == self.idle()
        } else {
            session == Some(self.idle()[0]) && after.idle() == self.idle().drop_first()
        }
    }

    /// The pool becomes `after` when `session` is given back. One that is not out changes nothing.
    pub open spec fn gives_back(self, after: TtsEngine, session: usize) -> bool {
        &&& after.capacity() == self.capacity()
        &&& after.idle() == (if self.is_out(session) {
            self.idle().push(session)
        } else {
            self.idle()
        })
    }

    /// There is a session, and none is idle twice.
    #[verifier::type_invariant]
    pub closed spec fn wf(self) -> bool {
        &&& self.capacity > 0
        &&& self.idle@.no_duplicates()
        &&& forall|i: int| 0 <= i < self.idle@.len() ==> #[trigger] self.idle@[i] < self.capacity
    }

    /// Makes the pool from what came of making its sessions one by one, up to the first failure.
    pub fn load(
        model_path: &str,
        pool_size: usize,
        attempts: Vec<Result<(), SessionFailure>>,
    ) -> (engine: Result<TtsEngine, InferenceError>)
        requires
            pool_size > 0,
            attempts@.len() >= pool_size || first_failure(attempts@, attempts@.len()) is Some,
        ensures
            match first_failure(attempts@, pool_size as nat) {
                Some(failure) => engine matches Err(e) && failure.reported_by(model_path@, e),
                None => engine matches Ok(engine) && engine.wf() && engine.capacity() == pool_size
                    && engine.idle() == Seq::new(pool_size as nat, |i: int| i as usize),
            },
    {
        let mut idle: Vec<usize> = Vec::new();
        let mut i: usize = 0;
        while i < pool_size
            invariant
                i <= pool_size,
                pool_size > 0,
                attempts@.len() >= pool_size || first_failure(attempts@, attempts@.len()) is Some,
                first_failure(attempts@, i as nat) is None,
                idle@ =~= Seq::new(i as nat, |j: int| j as usize),
            decreases pool_size - i,
        {
            proof {
                if i >= attempts@.len() {
                    failures_stand(attempts@, attempts@.len(), i as nat);
                }
            }
            match &attempts[i] {
                Ok(_) => {},
                Err(failure) => {
                    proof {
                        failures_stand(attempts@, (i + 1) as nat, pool_size as nat);
                    }
                    return Err(
                        match failure {
                            SessionFailure::Setup(m) => InferenceError::OrtSetup(m.clone()),
                            SessionFailure::Model(m) => InferenceError::ModelLoad {
                                path: model_path.to_owned(),
                                message: m.clone(),
                            },
                        },
                    );
                },
            }
            idle.push(i);
            i += 1;
        }
        Ok(TtsEngine { capacity: pool_size, idle })
    }

    /// Checks the inputs of an inference: there must be tokens, the style must have 256 elements
    /// and the speed must not be zero or negative.
    pub fn synthesize(&self, token_ids: &[i64], style: &[u32], speed: &Speed) -> (inputs: Result<
        InferenceInputs,
        InferenceError,
    >)
        ensures
            if token_ids@.len() == 0 {
                inputs matches Err(InferenceError::EmptyTokenIds)
            } else if style@.len() != 256 {
                inputs matches Err(InferenceError::StyleLength(n)) && n == style@.len()
            } else if single::at_most_zero(single::single(speed.bits)) {
                inputs matches Err(InferenceError::NonPositiveSpeed(s)) && s.bits == speed.bits
                    && s.text@ == speed.text@
            } else {
                inputs matches Ok(inputs) && inputs.token_ids@ == token_ids@ && inputs.style@
                    == style@ && inputs.speed == speed.bits
            },
    {
        if token_ids.len() == 0 {
            return Err(InferenceError::EmptyTokenIds);
        }
        if style.len() != 256 {
            return Err(InferenceError::StyleLength(style.len()));
        }
        if single::not_positive(speed.bits) {
            return Err(
                InferenceError::NonPositiveSpeed(
                    Speed { bits: speed.bits, text: speed.text.clone() },
                ),
            );
        }
        Ok(
            InferenceInputs {
                token_ids: vstd::slice::slice_to_vec(token_ids),
                style: vstd::slice::slice_to_vec(style),
                speed: speed.bits,
            },
        )
    }

    /// Takes the session that has been idle for the longest time, if any is idle.
    pub fn checkout(&mut self) -> (session: Option<usize>)
        ensures
            final(self).wf(),
            old(self).checks_out(*final(self), session),
    {
        proof {
            use_type_invariant(&*self);
        }
        if self.idle.len() == 0 {
            return None;
        }
        let mut idle: Vec<usize> = Vec::new();
        std::mem::swap(&mut idle, &mut self.idle);
        let session: usize = idle.remove(0);
        assert(idle@ =~= old(self).idle().drop_first());
        self.idle = idle;
        Some(session)
    }

    /// Gives a session back. One that is not out changes nothing.
    pub fn give_back(&mut self, session: usize)
        ensures
            final(self).wf(),
            old(self).gives_back(*final(self), session),
    {
        proof {
            use_type_invariant(&*self);
        }
        if session >= self.capacity {
            return;
        }
        let mut i: usize = 0;
        while i < self.idle.len()
            invariant
                i <= self.idle.len(),
                *self == *old(self),
                forall|j: int| 0 <= j < i ==> #[trigger] self.idle@[j] != session,
                self.wf(),
            decreases self.idle.len() - i,
        {
            if self.idle[i] == session {
                assert(self.idle@.contains(session));
                return;
            }
            i += 1;
        }
        let mut idle: Vec<usize> = Vec::new();
        std::mem::swap(&mut idle, &mut self.idle);
        idle.push(session);
        self.idle = idle;
    }
}

proof fn failures_stand(attempts: Seq<Result<(), SessionFailure>>, n: nat, m: nat)
    requires
        n <= m,
        first_failure(attempts, n) is Some,
    ensures
        first_failure(attempts, m) == first_failure(attempts, n),
    decreases m,
{
    if n < m {
        failures_stand(attempts, n, (m - 1) as nat);
    }
}

/// A session that is checked out was idle and is out; the others stay as they were. So it is not
/// handed out again before it is given back.
pub proof fn checkout_takes_out(before: TtsEngine, after: TtsEngine, session: usize)
    requires
        before.wf(),
        before.checks_out(after, Some(session)),
    ensures
        session < before.capacity(),
        !before.is_out(session),
        after.is_out(session),
        forall|other: usize| other != session ==> after.is_out(other) == before.is_out(other),
{
    let idle = before.idle();
    assert(idle[0] == session);
    assert forall|other: usize| other != session implies idle.drop_first().contains(other)
        == idle.contains(other) by {
        if idle.contains(other) {
            let i = choose|i: int| 0 <= i < idle.len() && idle[i] == other;
            assert(idle.drop_first()[i - 1] == other);
        }
    }
}

/// A session that is given back is idle; the others stay as they were.
pub proof fn give_back_returns(before: TtsEngine, after: TtsEngine, session: usize)
    requires
        before.gives_back(after, session),
    ensures
        !after.is_out(session),
        forall|other: usize| other != session ==> after.is_out(other) == before.is_out(other),
{
    let idle = before.idle();
    if before.is_out(session) {
        assert(idle.push(session)[idle.len() as int] == session);
        assert forall|other: usize| other != session implies idle.push(session).contains(other)
            == idle.contains(other) by {
            if idle.contains(other) {
                let i = choose|i: int| 0 <= i < idle.len() && idle[i] == other;
                assert(idle.push(session)[i] == other);
            }
        }
    }
}

/// Whoever waits is served once a session that is out is given back.
pub proof fn given_back_session_is_available(
    before: TtsEngine,
    between: TtsEngine,
    after: TtsEngine,
    given: usize,
    taken: Option<usize>,
)
    requires
        before.is_out(given),
        before.gives_back(between, given),
        between.checks_out(after, taken),
    ensures
        taken is Some,
{
}

/// An inference that has given its session back leaves the same sessions idle as before, and as
/// many.
pub proof fn inference_restores_the_pool(
    before: TtsEngine,
    between: TtsEngine,
    after: TtsEngine,
    session: usize,
)
    requires
        before.wf(),
        before.checks_out(between, Some(session)),
        between.gives_back(after, session),
    ensures
        after.idle().len() == before.idle().len(),
        forall|other: usize| after.is_out(other) == before.is_out(other),
{
    checkout_takes_out(before, between, session);
    give_back_returns(between, after, session);
}

/// The numbers of the sessions that are out.
pub open spec fn sessions_out(engine: TtsEngine) -> Set<int> {
    Set::new(|n: int| 0 <= n < engine.capacity() && engine.is_out(n as usize))
}

/// Every session of the pool is either idle or out: there are never more out than the pool has.
pub proof fn sessions_are_idle_or_out(engine: TtsEngine)
    requires
        engine.wf(),
    ensures
        sessions_out(engine).finite(),
        sessions_out(engine).len() + engine.idle().len() == engine.capacity(),
{
    let idle = engine.idle();
    let numbers = idle.map_values(|session: usize| session as int);
    let all = vstd::set_lib::set_int_range(0, engine.capacity() as int);
    vstd::set_lib::lemma_int_range(0, engine.capacity() as int);
    assert(numbers.no_duplicates());
    numbers.unique_seq_to_set();
    assert forall|n: int| numbers.to_set().contains(n) == (all.contains(n) && !engine.is_out(
        n as usize,
    )) by {
        if numbers.to_set().contains(n) {
            let i = choose|i: int| 0 <= i < numbers.len() && numbers[i] == n;
            assert(idle[i] < engine.capacity());
            assert(idle.contains(n as usize));
        }
        if all.contains(n) && idle.contains(n as usize) {
            let i = choose|i: int| 0 <= i < idle.len() && idle[i] == n as usize;
            assert(numbers[i] == n);
        }
    }
    let out = sessions_out(engine);
    assert(out =~= all.difference(numbers.to_set()));
    assert(all.intersect(numbers.to_set()) =~= numbers.to_set());
    vstd::set_lib::lemma_set_intersect_union_lens(out, numbers.to_set());
    assert(out.intersect(numbers.to_set()) =~= Set::empty());
    assert(out.union(numbers.to_set()) =~= all);
}

/// A WAV file is 44 bytes longer than its samples, and starts as RIFF and WAVE.
pub proof fn wav_is_framed(pcm: Seq<i16>, sample_rate: u32)
    ensures
        wav_file(pcm, sample_rate).len() == 44 + 2 * pcm.len(),
        wav_file(pcm, sample_rate).subrange(0, 4) == seq![0x52u8, 0x49u8, 0x46u8, 0x46u8],
        wav_file(pcm, sample_rate).subrange(8, 12) == seq![0x57u8, 0x41u8, 0x56u8, 0x45u8],
{
}

/// The 16-bit number that two bytes in little-endian order stand for.
pub open spec fn sample_of(low: u8, high: u8) -> int {
    if high < 0x80 {
        low + 0x100 * high
    } else {
        low + 0x100 * high - 0x1_0000
    }
}

proof fn sample_reads_back(n: i16)
    ensures
        sample_of(le16(n as int)[0], le16(n as int)[1]) == n,
{
    let low = n as int % 0x100;
    let high = (n as int / 0x100) % 0x100;
    assert(le16(n as int)[0] == low);
    assert(le16(n as int)[1] == high);
}

proof fn samples_follow_the_header(pcm: Seq<i16>, sample_rate: u32, j: int)
    requires
        0 <= j < 2 * pcm.len(),
    ensures
        wav_file(pcm, sample_rate)[44 + j] == sample_bytes(pcm)[j],
{
}

/// The samples of a WAV file can be read back from it.
pub proof fn wav_holds_the_samples(pcm: Seq<i16>, sample_rate: u32, i: int)
    requires
        0 <= i < pcm.len(),
    ensures
        sample_of(
            wav_file(pcm, sample_rate)[44 + 2 * i],
            wav_file(pcm, sample_rate)[45 + 2 * i],
        ) == pcm[i],
{
    samples_follow_the_header(pcm, sample_rate, 2 * i);
    samples_follow_the_header(pcm, sample_rate, 2 * i + 1);
    sample_reads_back(pcm[i]);
    assert((2 * i) / 2 == i && (2 * i) % 2 == 0);
    assert((2 * i + 1) / 2 == i && (2 * i + 1) % 2 == 1);
    assert(sample_bytes(pcm)[2 * i] == le16(pcm[i] as int)[0]);
    assert(sample_bytes(pcm)[2 * i + 1] == le16(pcm[i] as int)[1]);
    assert(45 + 2 * i == 44 + (2 * i + 1));
}

/// Each of the samples `limited` is that of `samples` limited to the range from minus one to one.
pub open spec fn are_limited(samples: Seq<u32>, limited: Seq<u32>) -> bool {
    &&& limited.len() == samples.len()
    &&& forall|i: int|
        0 <= i < samples.len() ==> single::single(#[trigger] limited[i]) == single::limited(
            single::single(samples[i]),
        )
}

/// Samples outside the range from minus one to one are encoded as the limits of the range: they have
/// the same 16-bit samples and WAV file as the limited samples, and the same outcomes as an MP3 file.
pub proof fn limited_samples_are_encoded_alike(
    samples: Seq<u32>,
    limited: Seq<u32>,
    sample_rate: u32,
    mp3: Result<Vec<u8>, InferenceError>,
)
    requires
        are_limited(samples, limited),
    ensures
        pcm_samples(limited) == pcm_samples(samples),
        wav_file(pcm_samples(limited), sample_rate) == wav_file(pcm_samples(samples), sample_rate),
        encodes_mp3(mp3, limited, sample_rate) == encodes_mp3(mp3, samples, sample_rate),
{
    assert forall|i: int| 0 <= i < samples.len() implies pcm_samples(limited)[i] == pcm_samples(
        samples,
    )[i] by {
        assert(single::single(limited[i]) == single::limited(single::single(samples[i])));
        single::limiting_changes_nothing(single::single(samples[i]));
    }
    assert(pcm_samples(limited) =~= pcm_samples(samples));
}

/// A file that LAME has written came of these calls: an encoder was set to the rate, one channel,
/// good quality and 128 kbps, was handed all the samples and was flushed.
proof fn lame_is_handed_the_samples(
    head: Vec<u8>,
    tail: Vec<u8>,
    pcm: Seq<i16>,
    sample_rate: u32,
) -> (calls: (
    Seq<mp3lame_encoder::Builder>,
    Seq<mp3lame_encoder::Encoder>,
    Vec<i16>,
    usize,
))
    requires
        may_run(Mp3Run::Encoded { head, tail }, pcm, sample_rate),
    ensures
        ({
            let (builders, encoders, samples, capacity) = calls;
            &&& call_ensures(
                mp3lame_encoder::Builder::with_sample_rate,
                (builders[0], sample_rate),
                Ok(builders[1]),
            )
            &&& call_ensures(
                mp3lame_encoder::Builder::with_num_channels,
                (builders[1], 1u8),
                Ok(builders[2]),
            )
            &&& call_ensures(with_quality, (builders[2], Mp3Quality::Good), Ok(builders[3]))
            &&& call_ensures(with_brate, (builders[3], Mp3Bitrate::Kbps128), Ok(builders[4]))
            &&& call_ensures(mp3lame_encoder::Builder::build, (builders[4],), Ok(encoders[0]))
            &&& samples@ == pcm
            &&& call_ensures(
                lame_encode,
                (encoders[0], &samples, capacity),
                (encoders[1], Ok(head)),
            )
            &&& call_ensures(lame_flush, (encoders[1], 7200usize), Ok(tail))
        }),
{
    let fed = choose|fed: mp3lame_encoder::Encoder|
        {
            &&& #[trigger] encodes_samples(pcm, sample_rate, fed, Ok(head))
            &&& call_ensures(lame_flush, (fed, 7200usize), Ok(tail))
        };
    assert(encodes_samples(pcm, sample_rate, fed, Ok(head)));
    let capacity = mp3_capacity(pcm.len(), sample_rate) as usize;
    let given: Result<Vec<u8>, mp3lame_encoder::EncodeError> = Ok(head);
    let (encoder, samples) = choose|encoder: mp3lame_encoder::Encoder, samples: Vec<i16>|
        {
            &&& is_mono_encoder(encoder, sample_rate)
            &&& samples@ == pcm
            &&& #[trigger] call_ensures(lame_encode, (encoder, &samples, capacity), (fed, given))
        };
    assert(is_mono_encoder(encoder, sample_rate));
    let builder = choose|builder: mp3lame_encoder::Builder|
        {
            &&& is_mono_builder(builder, sample_rate)
            &&& #[trigger] call_ensures(mp3lame_encoder::Builder::build, (builder,), Ok(encoder))
        };
    assert(is_mono_builder(builder, sample_rate));
    let (b0, b1, b2, b3) = choose|
        b0: mp3lame_encoder::Builder,
        b1: mp3lame_encoder::Builder,
        b2: mp3lame_encoder::Builder,
        b3: mp3lame_encoder::Builder,
    |
        {
            &&& #[trigger] call_ensures(
                mp3lame_encoder::Builder::with_sample_rate,
                (b0, sample_rate),
                Ok(b1),
            )
            &&& #[trigger] call_ensures(
                mp3lame_encoder::Builder::with_num_channels,
                (b1, 1u8),
                Ok(b2),
            )
            &&& #[trigger] call_ensures(with_quality, (b2, Mp3Quality::Good), Ok(b3))
            &&& #[trigger] call_ensures(with_brate, (b3, Mp3Bitrate::Kbps128), Ok(builder))
        };
    (seq![b0, b1, b2, b3, builder], seq![encoder, fed], samples, capacity)
}

/// LAME is given up only where a call of it failed: there was no builder, the rate was refused, the
/// encoder was not built, or it failed on the samples or at their end.
proof fn lame_gave_its_reason(run: Mp3Run, pcm: Seq<i16>, sample_rate: u32)
    requires
        may_run(run, pcm, sample_rate),
    ensures
        match run {
            Mp3Run::NoEncoder => call_ensures(mp3lame_encoder::Builder::new, (), None),
            Mp3Run::NotBuilt(reason) => exists|
                outside: mp3lame_encoder::BuildError,
                builder: mp3lame_encoder::Builder,
            |
                {
                    &&& #[trigger] call_ensures(build_error, (outside,), reason)
                    &&& {
                        ||| #[trigger] call_ensures(
                            mp3lame_encoder::Builder::with_sample_rate,
                            (builder, sample_rate),
                            Err(outside),
                        )
                        ||| is_mono_builder(builder, sample_rate) && call_ensures(
                            mp3lame_encoder::Builder::build,
                            (builder,),
                            Err(outside),
                        )
                    }
                },
            Mp3Run::NotEncoded(reason) => exists|
                outside: mp3lame_encoder::EncodeError,
                encoder: mp3lame_encoder::Encoder,
                samples: Vec<i16>,
                capacity: usize,
                fed: mp3lame_encoder::Encoder,
                head: Result<Vec<u8>, mp3lame_encoder::EncodeError>,
            |
                {
                    &&& #[trigger] call_ensures(encode_error, (outside,), reason)
                    &&& is_mono_encoder(encoder, sample_rate)
                    &&& samples@ == pcm
                    &&& #[trigger] call_ensures(
                        lame_encode,
                        (encoder, &samples, capacity),
                        (fed, head),
                    )
                    &&& match head {
                        Err(e) => e == outside,
                        Ok(_) => call_ensures(lame_flush, (fed, 7200usize), Err(outside)),
                    }
                },
            Mp3Run::Encoded { .. } => true,
        },
{
    match run {
        Mp3Run::NotBuilt(reason) => {
            let outside = choose|outside: mp3lame_encoder::BuildError|
                {
                    &&& #[trigger] call_ensures(build_error, (outside,), reason)
                    &&& refuses_mono_encoder(outside, sample_rate)
                };
            assert(call_ensures(build_error, (outside,), reason));
            if exists|builder: mp3lame_encoder::Builder| #[trigger]
                call_ensures(
                    mp3lame_encoder::Builder::with_sample_rate,
                    (builder, sample_rate),
                    Err(outside),
                ) {
            } else {
                let builder = choose|builder: mp3lame_encoder::Builder|
                    {
                        &&& is_mono_builder(builder, sample_rate)
                        &&& #[trigger] call_ensures(
                            mp3lame_encoder::Builder::build,
                            (builder,),
                            Err(outside),
                        )
                    };
                let refused: Result<mp3lame_encoder::Builder, mp3lame_encoder::BuildError> = Err(
                    outside,
                );
                let asked = call_ensures(
                    mp3lame_encoder::Builder::with_sample_rate,
                    (builder, sample_rate),
                    refused,
                );
                assert(asked || is_mono_builder(builder, sample_rate));
            }
        },
        Mp3Run::NotEncoded(reason) => {
            let outside = choose|outside: mp3lame_encoder::EncodeError|
                {
                    &&& #[trigger] call_ensures(encode_error, (outside,), reason)
                    &&& fails_to_encode(outside, pcm, sample_rate)
                };
            assert(call_ensures(encode_error, (outside,), reason));
            let (fed, head) = choose|
                fed: mp3lame_encoder::Encoder,
                head: Result<Vec<u8>, mp3lame_encoder::EncodeError>,
            |
                {
                    &&& #[trigger] encodes_samples(pcm, sample_rate, fed, head)
                    &&& head == Err::<Vec<u8>, mp3lame_encoder::EncodeError>(outside) || (head is Ok
                        && call_ensures(lame_flush, (fed, 7200usize), Err(outside)))
                };
            assert(encodes_samples(pcm, sample_rate, fed, head));
        },
        _ => {},
    }
}

/// Room is set aside for what LAME may need for its samples, a quarter more than a byte for each and
/// 7200, and for 128 kbps of their sound; but never more than LAME can count.
proof fn capacity_suffices(samples: usize, sample_rate: u32, capacity: usize)
    requires
        call_ensures(capacity_for, (samples, sample_rate), capacity),
    ensures
        4 * capacity >= 5 * samples + 28_800,
        capacity <= 0x7fff_ffff,
        sample_rate > 0 && capacity < 0x7fff_ffff ==> (capacity - 7200) * sample_rate >= 16_000
            * samples,
{
    if sample_rate > 0 {
        let sound = samples as nat * 16_000;
        vstd::arithmetic::div_mod::lemma_fundamental_div_mod(sound as int, sample_rate as int);
        let seconds = sound / (sample_rate as nat);
        if capacity < 0x7fff_ffff {
            assert((capacity - 7200) * sample_rate >= sound) by (nonlinear_arith)
                requires
                    capacity >= seconds + 7201,
                    sound == sample_rate * seconds + sound % (sample_rate as nat),
                    sound % (sample_rate as nat) < sample_rate,
                    sample_rate > 0,
            ;
        }
    }
}

} // verus!
