use tts_rs::cli::{
    encode_output, output_format, reads_stdin, resolve_text, AudioFormat, SynthError,
};
use tts_rs::config::model_file;
use tts_rs::download::{
    checked_url, download, download_vocab, model_url, tokenizer_url, vocab_file, voice_file,
    voice_url, voices, DownloadError, DownloadStep, VocabEvent, VocabStep, ONNX_BASE, ROOT_BASE,
};
use tts_rs::error::{InferenceError, PhonemizerError, VoiceError};
use tts_rs::phonemizer::VocabMapper;

#[test]
fn download_skips_existing_file() {
    let step = download("models/existing.bin", true);
    assert_eq!(step, DownloadStep::Skip("  skip (exists): models/existing.bin".to_owned()));
}

#[test]
fn download_vocab_skips_existing_file() {
    match download_vocab("models/vocab.json", VocabEvent::Looked(true)) {
        VocabStep::Skip(notice) => assert_eq!(notice, "  skip (exists): models/vocab.json"),
        step => panic!("expected skip; got {step:?}"),
    }
}

#[test]
fn missing_files_are_fetched() {
    assert_eq!(download("models/vocab.json", false), DownloadStep::Fetch);
}

#[test]
fn voices_list_is_nonempty() {
    assert!(!voices().is_empty());
}

#[test]
fn voices_list_has_no_duplicates() {
    let mut seen = std::collections::HashSet::new();
    for v in voices() {
        assert!(seen.insert(v), "duplicate voice: {v}");
    }
}

#[test]
fn onnx_base_uses_resolve() {
    assert!(
        ONNX_BASE.contains("/resolve/main/"),
        "must use resolve, not blob"
    );
}

#[test]
fn root_base_uses_resolve() {
    assert!(
        ROOT_BASE.contains("/resolve/main/"),
        "must use resolve, not blob"
    );
}

#[test]
fn default_model_is_quantized() {
    let model_filename = model_file(None);
    // Default must not be FP32 — the 2 GB Fly machine can't hold a full-precision session.
    assert!(
        model_filename.contains("quantized")
            || model_filename.contains("q4")
            || model_filename.contains("q8")
            || model_filename.contains("uint8"),
        "expected a quantized model by default, got: {model_filename}",
    );
    assert_eq!(model_filename, "model_quantized.onnx");
    assert_eq!(model_file(Some("model.onnx")), "model.onnx");
}

#[test]
fn url_join_builds_correct_onnx_url() {
    let url = model_url("model.onnx").unwrap();
    assert!(url.as_str().ends_with("/onnx/model.onnx"));
    assert!(url.as_str().contains("/resolve/main/"));
}

#[test]
fn url_join_builds_correct_voice_url() {
    let url = voice_url("af_heart").unwrap();
    assert!(url.as_str().ends_with("/voices/af_heart.bin"));
}

#[test]
fn urls_are_exact() {
    let root = "https://huggingface.co/onnx-community/Kokoro-82M-v1.0-ONNX/resolve/main/";
    assert_eq!(model_url("model_q4.onnx").unwrap(), format!("{root}onnx/model_q4.onnx"));
    assert_eq!(model_url("../x y").unwrap(), format!("{root}x%20y"));
    assert_eq!(tokenizer_url().unwrap(), format!("{root}tokenizer.json"));
    assert_eq!(voice_url("zm_yunyang").unwrap(), format!("{root}voices/zm_yunyang.bin"));
    assert_eq!(voice_file("af_sky"), "af_sky.bin");
}

#[test]
fn bad_urls_are_reported() {
    let err = model_url("https://[::1").unwrap_err();
    assert!(matches!(err, DownloadError::Url(_)), "got {err:?}");
    assert_eq!(err.to_string(), "URL parse: invalid IPv6 address");
    assert_eq!(checked_url(Ok("u".to_owned())).unwrap(), "u");
    let err = checked_url(Err("empty host".to_owned())).unwrap_err();
    assert_eq!(err.to_string(), "URL parse: empty host");
}

#[test]
fn download_errors_have_their_texts() {
    assert_eq!(DownloadError::Io("i".to_owned()).to_string(), "filesystem: i");
    assert_eq!(DownloadError::Http("h".to_owned()).to_string(), "HTTP: h");
    assert_eq!(DownloadError::Json("j".to_owned()).to_string(), "JSON: j");
}

#[test]
fn vocabulary_files_are_loaded_as_they_were_written() {
    let entries: Vec<(String, i64)> =
        vec![(";".to_owned(), 1), ("$".to_owned(), 0), ("\"".to_owned(), -7), ("ɛ".to_owned(), 86)];
    let text = vocab_file(&entries).unwrap();
    assert_eq!(text, "{\n  \"\\\"\": -7,\n  \"$\": 0,\n  \";\": 1,\n  \"ɛ\": 86\n}");
    let mapper = VocabMapper::load("vocab.json", Ok(text)).unwrap();
    assert_eq!(mapper.ipa_to_tokens("ɛ\"x"), vec![0, 86, -7, 1]);
    assert_eq!(vocab_file(&vec![]).unwrap(), "{}");
}

#[test]
fn vocabulary_of_a_tokenizer_is_saved_whole() {
    let vocab: Vec<(String, i64)> =
        vec![("$".to_owned(), 0), (";".to_owned(), 1), ("ab".to_owned(), 5), ("h".to_owned(), 9)];
    let (text, notice) = match download_vocab("v", VocabEvent::Read(Ok(vocab.clone()))) {
        VocabStep::Save { text, notice } => (text, notice),
        step => panic!("got {step:?}"),
    };
    assert_eq!(notice, "  ✓ vocab.json (4 entries)");
    let saved: serde_json::Value = serde_json::from_str(&text).unwrap();
    let members = saved.as_object().unwrap();
    assert_eq!(members.len(), vocab.len());
    for (name, id) in &vocab {
        assert_eq!(members[name], serde_json::Value::from(*id));
    }
    let mapper = VocabMapper::load("vocab.json", Ok(text)).unwrap();
    assert_eq!(mapper.ipa_to_tokens("h"), vec![0, 9, 1]);
    match download_vocab("v", VocabEvent::Read(Err("missing field `model`".to_owned()))) {
        VocabStep::Fail(err) => {
            assert!(matches!(err, DownloadError::Json(_)), "got {err:?}");
            assert_eq!(err.to_string(), "JSON: missing field `model`");
        }
        step => panic!("got {step:?}"),
    }
    match download_vocab("v", VocabEvent::Looked(false)) {
        VocabStep::Fetch(notice) => {
            assert_eq!(notice, "  downloading vocab from tokenizer.json…")
        }
        step => panic!("got {step:?}"),
    }
}

#[test]
fn text_comes_from_the_argument_or_from_stdin() {
    assert!(reads_stdin("-"));
    assert!(!reads_stdin("--"));
    assert_eq!(resolve_text(" hi ", "unused").unwrap(), " hi ");
    assert_eq!(resolve_text("-", " Hello world\n").unwrap(), "Hello world");
    assert!(matches!(resolve_text("-", " \n"), Err(SynthError::EmptyInput)));
    assert!(matches!(resolve_text("", "unused"), Err(SynthError::EmptyInput)));
}

#[test]
fn format_follows_the_extension() {
    for extension in ["wav", "WAV", "Wav", "wAv"] {
        assert_eq!(output_format(Some(extension)), AudioFormat::Wav, "{extension}");
    }
    for extension in ["mp3", "", "wave", "wa", "ogg", "wäv"] {
        assert_eq!(output_format(Some(extension)), AudioFormat::Mp3, "{extension}");
    }
    assert_eq!(output_format(None), AudioFormat::Mp3);
}

#[test]
fn output_is_encoded_in_its_format() {
    let samples = vec![0.25f32.to_bits(); 100];
    let wav = encode_output(&samples, Some("WAV")).unwrap();
    assert_eq!(&wav[0..4], b"RIFF");
    assert_eq!(wav.len(), 244);
    let mp3 = encode_output(&samples, None).unwrap();
    assert_eq!(mp3[0], 0xff);
}

#[test]
fn synth_errors_have_their_texts() {
    let cases = [
        (
            SynthError::Voice(VoiceError::UnknownVoice { name: "x".to_owned() }),
            "voice bank: unknown voice: 'x'",
        ),
        (
            SynthError::Phonemizer(PhonemizerError::MissingEos),
            "phonemizer: EOS token ';' missing from vocab",
        ),
        (
            SynthError::Inference(InferenceError::EmptyTokenIds),
            "model: token_ids must not be empty",
        ),
        (SynthError::Io("denied".to_owned()), "I/O: denied"),
        (SynthError::EmptyInput, "empty input text"),
        (SynthError::PlaybackFailed("afplay".to_owned()), "playback failed: afplay"),
    ];
    for (error, text) in cases {
        assert_eq!(error.to_string(), text);
    }
}
