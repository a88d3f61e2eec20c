use mp3lame_encoder::{BuildError, EncodeError};
use tts_rs::error::{InferenceError, Mp3BuildError, Mp3EncodeError};
use tts_rs::inference::{
    can_encode_mp3, can_encode_wav, encode_mp3, encode_wav, pool_size, settle_mp3, settle_run,
    InferenceInputs, Mp3Run, SessionFailure, SessionRun, Speed, TensorData, TensorSpec, TtsEngine,
};

fn bits(samples: &[f32]) -> Vec<u32> {
    samples.iter().map(|s| s.to_bits()).collect()
}

fn speed(value: f32) -> Speed {
    Speed { bits: value.to_bits(), text: value.to_string() }
}

fn engine(sessions: usize) -> TtsEngine {
    let attempts = (0..sessions).map(|_| Ok(())).collect();
    TtsEngine::load("model.onnx", sessions, attempts).unwrap()
}

#[test]
fn encode_wav_produces_riff_header() {
    let silence = vec![0.0f32; 24_000];
    let bytes = encode_wav(&bits(&silence), 24_000).unwrap();
    assert_eq!(&bytes[0..4], b"RIFF");
    assert_eq!(&bytes[8..12], b"WAVE");
}

#[test]
fn encode_wav_correct_sample_count() {
    let n_samples = 480;
    let signal = vec![0.5f32; n_samples];
    let bytes = encode_wav(&bits(&signal), 24_000).unwrap();
    // Standard PCM WAV: 44-byte header + 2 bytes per i16 sample
    assert_eq!(bytes.len(), 44 + n_samples * 2);
}

#[test]
fn wav_clamps_range() {
    let signal = vec![2.0f32, -2.0, 0.0];
    assert!(encode_wav(&bits(&signal), 24_000).is_ok());
}

#[test]
fn encode_wav_empty_samples_ok() {
    let bytes = encode_wav(&[], 24_000).unwrap();
    assert_eq!(&bytes[0..4], b"RIFF");
}

#[test]
fn wav_file_is_exact() {
    let signal = vec![2.0f32, -2.0, 0.0, 0.5];
    let bytes = encode_wav(&bits(&signal), 24_000).unwrap();
    let expected: Vec<u8> = vec![
        0x52, 0x49, 0x46, 0x46, 44, 0, 0, 0, 0x57, 0x41, 0x56, 0x45, 0x66, 0x6d, 0x74, 0x20, 16, 0,
        0, 0, 1, 0, 1, 0, 0xc0, 0x5d, 0, 0, 0x80, 0xbb, 0, 0, 2, 0, 16, 0, 0x64, 0x61, 0x74, 0x61,
        8, 0, 0, 0, 0xff, 0x7f, 0x01, 0x80, 0, 0, 0xff, 0x3f,
    ];
    assert_eq!(bytes, expected);
}

#[test]
fn wav_samples_read_back() {
    let signal: Vec<f32> = (0..2000).map(|i| (i as f32 * 0.01).sin() * 1.2).collect();
    let bytes = encode_wav(&bits(&signal), 16_000).unwrap();
    let mut reader = hound::WavReader::new(std::io::Cursor::new(bytes)).unwrap();
    assert_eq!(reader.spec().channels, 1);
    assert_eq!(reader.spec().sample_rate, 16_000);
    assert_eq!(reader.spec().bits_per_sample, 16);
    let samples: Vec<i16> = reader.samples::<i16>().map(|s| s.unwrap()).collect();
    let expected: Vec<i16> =
        signal.iter().map(|s| (s.clamp(-1.0, 1.0) * i16::MAX as f32) as i16).collect();
    assert_eq!(samples, expected);
}

#[test]
fn mp3_header_format() {
    let silence = vec![0.0f32; 24_000];
    let bytes = encode_mp3(&bits(&silence), 24_000).unwrap();
    assert!(!bytes.is_empty());
    // MP3 frames start with 0xFF 0xFB/0xFA/0xF3 sync word,
    // or ID3 tag (0x49 0x44 0x33 = "ID3") prepended by LAME.
    let starts_sync = bytes[0] == 0xFF && (bytes[1] & 0xE0 == 0xE0);
    let starts_id3 = bytes.starts_with(b"ID3");
    assert!(
        starts_sync || starts_id3,
        "unexpected MP3 header: {:02x?}",
        &bytes[..4]
    );
}

#[test]
fn mp3_clamps_range() {
    let signal = vec![2.0f32, -2.0, 0.0];
    assert!(encode_mp3(&bits(&signal), 24_000).is_ok());
}

#[test]
fn encode_mp3_empty_samples_ok() {
    let bytes = encode_mp3(&[], 24_000).unwrap();
    // LAME may produce a small flush frame even for empty input.
    assert!(
        bytes.len() < 1024,
        "unexpected large output for empty input"
    );
}

/// The bit rate indices of the frames of an MPEG-2 file at 24 kHz.
fn frame_rates(bytes: &[u8]) -> Vec<u8> {
    let kbps = [0, 8, 16, 24, 32, 40, 48, 56, 64, 80, 96, 112, 128, 144, 160];
    let mut rates = Vec::new();
    let mut at = 0;
    while at + 4 <= bytes.len() {
        assert_eq!(bytes[at], 0xff, "no frame at {at}");
        assert_eq!(bytes[at + 1] & 0xf6, 0xf2, "no MPEG-2 layer III frame at {at}");
        assert_eq!((bytes[at + 2] >> 2) & 3, 1, "not 24 kHz at {at}");
        let index = bytes[at + 2] >> 4;
        let padding = ((bytes[at + 2] >> 1) & 1) as usize;
        rates.push(index);
        at += 72 * kbps[index as usize] * 1000 / 24_000 + padding;
    }
    rates
}

#[test]
fn mp3_has_a_constant_rate_of_128_kbps() {
    let tone: Vec<f32> = (0..48_000).map(|i| (i as f32 * 0.1).sin() * 0.7).collect();
    let bytes = encode_mp3(&bits(&tone), 24_000).unwrap();
    let rates = frame_rates(&bytes);
    // 48000 samples make 83 frames of 576.
    assert!(rates.len() >= 83, "got {} frames", rates.len());
    assert!(rates.iter().all(|r| *r == 12), "got {rates:?}");
}

#[test]
fn mp3_has_room_at_every_rate() {
    let noise: Vec<u32> = (0..100_000u32)
        .map(|i| ((i.wrapping_mul(2_654_435_761) >> 8) as f32 / 8_388_608.0 - 1.0).to_bits())
        .collect();
    for rate in [2000, 4000, 6399, 8000, 12_001, 12_799, 12_800, 16_000, 24_000, 48_000] {
        let mp3 = encode_mp3(&noise, rate);
        assert!(mp3.is_ok(), "{rate}: got {:?}", mp3.unwrap_err());
    }
}

#[test]
fn samples_out_of_range_are_encoded_as_its_limits() {
    let wild = [2.0f32, -2.0, 0.0, f32::INFINITY, f32::NEG_INFINITY, f32::NAN, 0.3];
    let limited: Vec<f32> = wild.iter().map(|s| s.clamp(-1.0, 1.0)).collect();
    assert_eq!(
        encode_mp3(&bits(&wild), 24_000).unwrap(),
        encode_mp3(&bits(&limited), 24_000).unwrap()
    );
    assert_eq!(
        encode_wav(&bits(&wild), 24_000).unwrap(),
        encode_wav(&bits(&limited), 24_000).unwrap()
    );
}

#[test]
fn mp3_without_a_rate_is_refused() {
    let err = encode_mp3(&bits(&[0.0]), 0).unwrap_err();
    assert!(matches!(err, InferenceError::Mp3Build(Mp3BuildError::Generic)), "got {err:?}");
    assert_eq!(err.to_string(), "MP3 build: error");
}

#[test]
fn mp3_run_is_settled() {
    let run = Mp3Run::Encoded { head: vec![1, 2], tail: vec![3] };
    assert_eq!(settle_mp3(run).unwrap(), vec![1, 2, 3]);
    let err = settle_mp3(Mp3Run::NoEncoder).unwrap_err();
    assert_eq!(err.to_string(), "MP3 init failed (lame returned null)");
    let err = settle_mp3(Mp3Run::NotBuilt(Mp3BuildError::BadSampleFreq)).unwrap_err();
    assert_eq!(err.to_string(), "MP3 build: bad sample frequency");
    let err = settle_mp3(Mp3Run::NotEncoded(Mp3EncodeError::Other(-7))).unwrap_err();
    assert_eq!(err.to_string(), "MP3 encode: error code=-7");
}

#[test]
fn mp3_errors_read_like_those_of_the_encoder() {
    let build = [
        (Mp3BuildError::Generic, BuildError::Generic),
        (Mp3BuildError::NoMem, BuildError::NoMem),
        (Mp3BuildError::BadBRate, BuildError::BadBRate),
        (Mp3BuildError::BadSampleFreq, BuildError::BadSampleFreq),
        (Mp3BuildError::InternalError, BuildError::InternalError),
        (Mp3BuildError::Other(-99), BuildError::Other(-99)),
        (Mp3BuildError::Other(i32::MIN), BuildError::Other(i32::MIN)),
    ];
    for (ours, theirs) in build {
        assert_eq!(ours.to_string(), theirs.to_string());
    }
    let encode = [
        (Mp3EncodeError::BufferTooSmall, EncodeError::BufferTooSmall),
        (Mp3EncodeError::NoMem, EncodeError::NoMem),
        (Mp3EncodeError::InvalidState, EncodeError::InvalidState),
        (Mp3EncodeError::PsychoAcoustic, EncodeError::PsychoAcoustic),
        (Mp3EncodeError::Other(12), EncodeError::Other(12)),
    ];
    for (ours, theirs) in encode {
        assert_eq!(ours.to_string(), theirs.to_string());
    }
}

#[test]
fn nonexistent_model_error() {
    let attempts = vec![Err(SessionFailure::Model("file not found".to_owned()))];
    let err = TtsEngine::load("/nonexistent/model.onnx", 2, attempts).unwrap_err();
    assert!(
        matches!(err, InferenceError::ModelLoad { .. }),
        "expected ModelLoad, got {err:?}",
    );
    assert_eq!(err.to_string(), "load model from `/nonexistent/model.onnx`: file not found");
}

#[test]
fn first_failure_ends_the_loading() {
    let attempts = vec![
        Ok(()),
        Err(SessionFailure::Setup("bad option".to_owned())),
        Err(SessionFailure::Model("unread".to_owned())),
    ];
    let err = TtsEngine::load("m.onnx", 3, attempts).unwrap_err();
    assert_eq!(err.to_string(), "ONNX runtime setup failed: bad option");
    // Sessions beyond the pool's size are not needed.
    let attempts = vec![Ok(()), Err(SessionFailure::Setup("late".to_owned()))];
    assert!(TtsEngine::load("m.onnx", 1, attempts).is_ok());
}

#[test]
fn empty_tokens_error_message() {
    let err = InferenceError::EmptyTokenIds;
    assert_eq!(err.to_string(), "token_ids must not be empty");
}

#[test]
fn style_length_error_message() {
    let err = InferenceError::StyleLength(42);
    assert_eq!(
        err.to_string(),
        "style vector must have exactly 256 elements, got 42"
    );
}

#[test]
fn non_positive_speed_error_message() {
    let err = InferenceError::NonPositiveSpeed(speed(0.0));
    assert_eq!(err.to_string(), "speed must be positive, got 0");
}

#[test]
fn tensor_build_has_name() {
    let err = InferenceError::TensorBuild {
        name: "input_ids",
        message: "bad shape".into(),
    };
    assert!(err.to_string().contains("input_ids"));
}

#[test]
fn model_error_has_path() {
    let err = InferenceError::ModelLoad {
        path: "/tmp/model.onnx".into(),
        message: "file not found".into(),
    };
    assert!(err.to_string().contains("/tmp/model.onnx"));
}

#[test]
fn other_inference_errors_have_their_texts() {
    let cases = [
        (InferenceError::WavEncode("w".into()), "WAV encode: w"),
        (
            InferenceError::SessionPoisoned,
            "ONNX session mutex poisoned (a previous inference panicked)",
        ),
        (InferenceError::TaskPanic("p".into()), "inference task panicked: p"),
        (InferenceError::InferenceRun("r".into()), "inference run: r"),
        (
            InferenceError::TensorExtract { name: "waveform", message: "x".into() },
            "extract `waveform` tensor: x",
        ),
    ];
    for (err, text) in cases {
        assert_eq!(err.to_string(), text);
    }
}

#[test]
fn pool_size_is_two_by_default() {
    assert_eq!(pool_size(None), 2);
    assert_eq!(pool_size(Some("")), 2);
    assert_eq!(pool_size(Some("three")), 2);
    assert_eq!(pool_size(Some("-1")), 2);
    assert_eq!(pool_size(Some("99999999999999999999")), 2);
    assert_eq!(pool_size(Some("7")), 7);
    assert_eq!(pool_size(Some("+7")), 7);
    assert_eq!(pool_size(Some("0")), 0);
}

#[test]
fn inputs_are_checked() {
    let engine = engine(1);
    let style = vec![0u32; 256];
    let err = engine.synthesize(&[], &style, &speed(1.0)).unwrap_err();
    assert!(matches!(err, InferenceError::EmptyTokenIds));
    let err = engine.synthesize(&[1], &style[..255], &speed(1.0)).unwrap_err();
    assert!(matches!(err, InferenceError::StyleLength(255)));
    let err = engine.synthesize(&[1], &style, &speed(-0.5)).unwrap_err();
    assert_eq!(err.to_string(), "speed must be positive, got -0.5");
    let inputs: InferenceInputs = engine.synthesize(&[0, 5, 1], &style, &speed(1.5)).unwrap();
    assert_eq!(inputs.token_ids, vec![0, 5, 1]);
    assert_eq!(inputs.style, style);
    assert_eq!(inputs.speed, 1.5f32.to_bits());
    let tensor = |name: &'static str, shape: &[usize], data: TensorData| TensorSpec {
        name,
        shape: shape.to_vec(),
        data,
    };
    assert_eq!(
        inputs.tensors(),
        vec![
            tensor("input_ids", &[1, 3], TensorData::Integers(vec![0, 5, 1])),
            tensor("style", &[1, 256], TensorData::Singles(style)),
            tensor("speed", &[1], TensorData::Singles(vec![1.5f32.to_bits()])),
        ]
    );
}

#[test]
fn runs_are_settled() {
    assert_eq!(settle_run(SessionRun::Waveform(vec![1, 2])).unwrap(), vec![1, 2]);
    let failures = [
        (
            SessionRun::PoolClosed,
            "ONNX session mutex poisoned (a previous inference panicked)",
        ),
        (
            SessionRun::TensorRejected { name: "style", message: "shape".into() },
            "build `style` tensor: shape",
        ),
        (SessionRun::Failed("f".into()), "inference run: f"),
        (SessionRun::NoWaveform("n".into()), "extract `waveform` tensor: n"),
        (SessionRun::Panicked("p".into()), "inference task panicked: p"),
    ];
    for (run, text) in failures {
        assert_eq!(settle_run(run).unwrap_err().to_string(), text);
    }
}

#[test]
fn sessions_are_handed_out_once() {
    let mut pool = engine(2);
    assert_eq!(pool.checkout(), Some(0));
    assert_eq!(pool.checkout(), Some(1));
    assert_eq!(pool.checkout(), None);
    pool.give_back(1);
    assert_eq!(pool.checkout(), Some(1));
    assert_eq!(pool.checkout(), None);
    pool.give_back(0);
    pool.give_back(0);
    pool.give_back(9);
    assert_eq!(pool.checkout(), Some(0));
    assert_eq!(pool.checkout(), None);
}

#[test]
fn sessions_wait_in_line() {
    let mut pool = engine(3);
    let first = pool.checkout().unwrap();
    pool.give_back(first);
    assert_eq!(pool.checkout(), Some(1));
    assert_eq!(pool.checkout(), Some(2));
    assert_eq!(pool.checkout(), Some(0));
}

#[test]
fn encoders_have_limits() {
    assert!(can_encode_wav(0, 24_000));
    assert!(can_encode_wav(2_147_483_629, 24_000));
    assert!(!can_encode_wav(2_147_483_630, 24_000));
    assert!(!can_encode_wav(1, 0));
    assert!(!can_encode_wav(1, 1 << 31));
    assert!(can_encode_mp3(0));
    // One byte and a quarter for each sample, and 7200 more.
    assert!(can_encode_mp3(1_717_981_157));
    assert!(!can_encode_mp3(1_717_981_158));
    assert!(!can_encode_mp3(usize::MAX));
}
