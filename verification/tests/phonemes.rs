use tts_rs::error::PhonemizerError;
use tts_rs::misaki::readable;
use tts_rs::phonemizer::{
    EspeakBackend, EspeakRun, MisakiBackend, Phonemizer, PhonemizerBackend, PhonemizerKind,
    SelectedBackend, MAX_TOKENS,
};

#[derive(Debug)]
struct DummyBackend;
impl PhonemizerBackend for DummyBackend {
    fn name(&self) -> &'static str {
        "dummy"
    }
    fn text_to_ipa(&self, text: &str) -> Result<String, PhonemizerError> {
        Ok(text.to_string())
    }
}

#[derive(Debug)]
struct FailingBackend;
impl PhonemizerBackend for FailingBackend {
    fn name(&self) -> &'static str {
        "failing"
    }
    fn text_to_ipa(&self, _text: &str) -> Result<String, PhonemizerError> {
        Err(PhonemizerError::EspeakFailed("no phonemes".to_owned()))
    }
}

fn make_vocab(entries: &[(&str, i64)]) -> serde_json::Value {
    let map: serde_json::Map<String, serde_json::Value> = entries
        .iter()
        .map(|(k, v)| (k.to_string(), serde_json::Value::from(*v)))
        .collect();
    serde_json::Value::Object(map)
}

fn load_vocab(entries: &[(&str, i64)]) -> Result<Phonemizer<DummyBackend>, PhonemizerError> {
    Phonemizer::load("vocab.json", Ok(make_vocab(entries).to_string()), DummyBackend)
}

#[test]
fn load_valid_vocab() {
    let p = load_vocab(&[("$", 0), (";", 1), ("h", 2), ("ɛ", 3)]).unwrap();
    assert_eq!(p.mapper.bos_id, 0);
    assert_eq!(p.mapper.eos_id, 1);
}

#[test]
fn missing_bos_variant() {
    let err = load_vocab(&[(";", 1), ("h", 2)]).unwrap_err();
    assert!(matches!(err, PhonemizerError::MissingBos), "got {err:?}");
}

#[test]
fn missing_eos_variant() {
    let err = load_vocab(&[("$", 0), ("h", 2)]).unwrap_err();
    assert!(matches!(err, PhonemizerError::MissingEos), "got {err:?}");
}

#[test]
fn nonexistent_vocab_file() {
    let read = Err("No such file or directory (os error 2)".to_owned());
    let err = Phonemizer::load("/nonexistent/vocab.json", read, DummyBackend).unwrap_err();
    assert!(
        matches!(err, PhonemizerError::VocabRead { .. }),
        "got {err:?}"
    );
    assert_eq!(
        err.to_string(),
        "read vocab file `/nonexistent/vocab.json`: No such file or directory (os error 2)"
    );
}

#[test]
fn invalid_vocab_json() {
    let read = Ok("not json at all".to_owned());
    let err = Phonemizer::load("vocab.json", read, DummyBackend).unwrap_err();
    assert!(matches!(err, PhonemizerError::VocabParse(_)), "got {err:?}");
    let expected = serde_json::from_str::<serde_json::Value>("not json at all").unwrap_err();
    assert_eq!(err.to_string(), format!("parse vocab JSON: {expected}"));
}

#[test]
fn vocabulary_of_other_values_is_refused() {
    for raw in ["[]", "{\"$\": \"x\"}", "{\"$\": 1.5}", "{\"$\": 0", ""] {
        let err = Phonemizer::load("v", Ok(raw.to_owned()), DummyBackend).unwrap_err();
        assert!(matches!(err, PhonemizerError::VocabParse(_)), "{raw}: got {err:?}");
    }
}

#[test]
fn last_member_of_a_name_counts() {
    let raw = "{\"$\": 0, \";\": 1, \"h\": 2, \"h\": 5, \"ab\": 9, \"\": 8}";
    let p = Phonemizer::load("v", Ok(raw.to_owned()), DummyBackend).unwrap();
    assert_eq!(p.phonemize("hab").unwrap(), vec![0, 5, 1]);
}

#[test]
fn tokens_wrap_bos_eos() {
    let p = load_vocab(&[("$", 0), (";", 1), ("h", 2), ("ɛ", 3), ("l", 4)]).unwrap();

    let tokens = p.mapper.ipa_to_tokens("hɛl");
    assert_eq!(tokens.first(), Some(&0)); // BOS
    assert_eq!(tokens.last(), Some(&1)); // EOS
    assert_eq!(tokens.len(), 5); // BOS + h + ɛ + l + EOS
}

#[test]
fn tokens_skip_unknown() {
    let p = load_vocab(&[("$", 0), (";", 1), ("h", 2)]).unwrap();

    let tokens = p.mapper.ipa_to_tokens("hxh");
    // 'x' is not in vocab — only BOS + h + h + EOS
    assert_eq!(tokens, vec![0, 2, 2, 1]);
}

#[test]
fn tokens_strip_stress() {
    let p = load_vocab(&[("$", 0), (";", 1), ("h", 2)]).unwrap();

    let tokens = p.mapper.ipa_to_tokens("ˈhˌh");
    assert_eq!(tokens, vec![0, 2, 2, 1]);
}

#[test]
fn marks_are_stripped_even_from_a_vocabulary_that_has_them() {
    let p = load_vocab(&[("$", 0), (";", 1), ("h", 2), ("ˈ", 7), ("\u{361}", 8)]).unwrap();
    assert_eq!(p.mapper.ipa_to_tokens("ˈh\u{361}h"), vec![0, 2, 2, 1]);
}

#[test]
fn tokens_truncate_max() {
    let _p = load_vocab(&[("$", 0), (";", 1)]).unwrap();
    assert_eq!(MAX_TOKENS, 510);
}

#[test]
fn long_texts_are_cut_behind_the_last_token() {
    let p = load_vocab(&[("$", 0), (";", 1), ("h", 2)]).unwrap();
    let mut expected = vec![0];
    expected.extend(std::iter::repeat(2).take(510));
    expected.push(1);
    assert_eq!(p.phonemize(&"hx".repeat(510)).unwrap(), expected);
    assert_eq!(p.phonemize(&"h".repeat(511)).unwrap(), expected);
    assert_eq!(p.phonemize(&"h".repeat(509)).unwrap().len(), 511);
    assert_eq!(p.phonemize("").unwrap(), vec![0, 1]);
}

#[test]
fn vocab_error_has_path() {
    let err = PhonemizerError::VocabRead {
        path: "/tmp/vocab.json".into(),
        source: std::io::Error::new(std::io::ErrorKind::NotFound, "not found").to_string(),
    };
    assert!(err.to_string().contains("/tmp/vocab.json"));
}

#[test]
fn missing_bos_error_message() {
    assert_eq!(
        PhonemizerError::MissingBos.to_string(),
        "BOS token '$' missing from vocab"
    );
}

#[test]
fn missing_eos_error_message() {
    assert_eq!(
        PhonemizerError::MissingEos.to_string(),
        "EOS token ';' missing from vocab"
    );
}

#[test]
fn dummy_backend_phonemize_passthrough() {
    let p = load_vocab(&[("$", 0), (";", 1), ("h", 2)]).unwrap();
    // DummyBackend echoes text as-is; only 'h' is in vocab
    let tokens = p.phonemize("h").unwrap();
    assert_eq!(tokens, vec![0, 2, 1]);
}

#[test]
fn backend_errors_are_handed_on() {
    let raw = make_vocab(&[("$", 0), (";", 1)]).to_string();
    let p = Phonemizer::load("v", Ok(raw), FailingBackend).unwrap();
    assert_eq!(p.phonemize("h").unwrap_err().to_string(), "espeak-ng: no phonemes");
}

#[test]
fn backend_name_espeak() {
    assert_eq!(EspeakBackend.name(), "espeak");
}

#[test]
fn backend_name_misaki() {
    assert_eq!(MisakiBackend.name(), "misaki");
}

#[test]
fn espeak_runs_are_settled() {
    let espeak = EspeakBackend;
    assert_eq!(espeak.voice(), "gmw/en-US");
    let settled = espeak.settle(EspeakRun::Phonemes(Some("həlˈoʊ".to_owned())));
    assert_eq!(settled.unwrap(), "həlˈoʊ");
    assert_eq!(espeak.settle(EspeakRun::Phonemes(None)).unwrap(), "");
    let failures = [
        (EspeakRun::NotInitialised("e".into()), "espeak-ng init: e"),
        (EspeakRun::NoVoice("e".into()), "espeak-ng: set voice: e"),
        (EspeakRun::Failed("e".into()), "espeak-ng: phonemize: e"),
    ];
    for (run, text) in failures {
        assert_eq!(espeak.settle(run).unwrap_err().to_string(), text);
    }
}

#[test]
fn misaki_phonemizes_words() {
    assert_eq!(MisakiBackend.text_to_ipa("word").unwrap(), "wˈɜɹd");
}

#[test]
fn misaki_phonemes_become_tokens() {
    let raw = make_vocab(&[("$", 0), (";", 16), ("w", 1), ("ɜ", 2), ("ɹ", 3), ("d", 4)]);
    let p = Phonemizer::load("v", Ok(raw.to_string()), MisakiBackend).unwrap();
    assert_eq!(p.phonemize("word").unwrap(), vec![0, 1, 2, 3, 4, 16]);
}

#[test]
fn misaki_reads_prose() {
    for text in [
        "",
        "Hello, world!",
        "“Amazing,” said the naïve king — café-going, ’tis nothing.",
        "Beijing’s 2nd Ring Road",
        "[Kokoro](/kˈOkəɹO/) is amazing",
        "—Ingrid was speaking",
        "singing dancing WALKING",
    ] {
        assert!(readable(text), "{text}");
    }
    assert!(readable("“ING” — and “Ing”"));
    // The last word is cut inside a character.
    assert!(!readable("caféing"));
    assert!(!readable("We are CAFÉING today"));
    assert!(!readable("[caf\u{e9}](1)ing"));
    assert!(!readable("½'ing"));
    assert!(!readable("e\u{301}’ing"));
    // Behind a letter, and where there are two, apostrophes are kept.
    assert!(readable("café'ing"));
    assert!(readable("½''ing"));
    assert!(readable(&"a".repeat(499_899)));
    assert!(!readable(&"a".repeat(499_900)));
    assert!(readable(&"many words ".repeat(20_000)));
}

#[test]
fn capitals_are_read_behind_signs_alone() {
    for c in '\u{80}'..=char::MAX {
        if c.is_alphabetic() {
            assert!(!readable(&format!("{c}ING")), "{:#x}", c as u32);
        }
        if !c.is_alphabetic() && !matches!(c, '‘' | '’' | '™') {
            assert!(!readable(&format!("{c}'ing")), "{:#x}", c as u32);
        }
    }
}

#[test]
fn misaki_phonemizes_what_is_readable() {
    for text in ["“Amazing,” he said.", "naïve thing", "[hello](+2) king", "café'ing", "½''ing", "“ING”"] {
        assert!(readable(text));
        assert!(!MisakiBackend.text_to_ipa(text).unwrap().is_empty());
    }
}

#[test]
fn misaki_gets_to_the_end_of_long_runs() {
    let text = "a".repeat(499_899);
    assert!(readable(&text));
    assert!(MisakiBackend.text_to_ipa(&text).is_ok());
}

#[test]
fn misaki_gets_to_the_end_of_long_capitals() {
    let text = "A".repeat(499_899);
    assert!(readable(&text));
    assert!(MisakiBackend.text_to_ipa(&text).is_ok());
}

#[test]
fn misaki_gets_to_the_end_of_long_contractions() {
    let text = "a'".repeat(249_949);
    assert!(readable(&text));
    assert!(MisakiBackend.text_to_ipa(&text).is_ok());
}

#[test]
fn misaki_gets_to_the_end_of_long_runs_behind_signs() {
    let text = format!("½'{}", "a".repeat(499_897));
    assert!(readable(&text));
    assert!(MisakiBackend.text_to_ipa(&text).is_ok());
}

#[test]
fn misaki_gets_to_the_end_of_long_numbers() {
    let text = "7".repeat(499_899);
    assert!(readable(&text));
    assert!(MisakiBackend.text_to_ipa(&text).is_ok());
}

#[test]
fn backends_are_named() {
    assert_eq!(PhonemizerKind::from_str("espeak").unwrap(), PhonemizerKind::Espeak);
    assert_eq!(PhonemizerKind::from_str("misaki").unwrap(), PhonemizerKind::Misaki);
    let err = PhonemizerKind::from_str("Espeak").unwrap_err();
    assert_eq!(
        err.to_string(),
        "unknown PHONEMIZER backend: 'Espeak' (valid options: \"espeak\", \"misaki\")"
    );
}

#[test]
fn backend_is_selected_by_the_variable() {
    let vocab = || Ok(make_vocab(&[("$", 0), (";", 1)]).to_string());
    let p = Phonemizer::load_from_env(None, DummyBackend, "v", vocab()).unwrap();
    assert!(matches!(p.backend, SelectedBackend::Espeak(_)));
    assert_eq!(p.backend.name(), "dummy");
    let p = Phonemizer::load_from_env(Some("espeak"), DummyBackend, "v", vocab()).unwrap();
    assert!(matches!(p.backend, SelectedBackend::Espeak(_)));
    let p = Phonemizer::load_from_env(Some("misaki"), DummyBackend, "v", vocab()).unwrap();
    assert!(matches!(p.backend, SelectedBackend::Misaki(_)));
    assert_eq!(p.backend.name(), "misaki");
    let err = Phonemizer::load_from_env(Some(""), DummyBackend, "v", vocab()).unwrap_err();
    assert!(matches!(err, PhonemizerError::UnknownBackend(ref name) if name.is_empty()));
    // The name is looked at before the vocabulary.
    let read = Err("gone".to_owned());
    let err = Phonemizer::load_from_env(Some("x"), DummyBackend, "v", read).unwrap_err();
    assert!(matches!(err, PhonemizerError::UnknownBackend(_)));
}

#[test]
fn other_phonemizer_errors_have_their_texts() {
    let cases = [
        (PhonemizerError::EspeakInit("e".into()), "espeak-ng init: e"),
        (PhonemizerError::MisakiError("e".into()), "misaki-rs: e"),
        (PhonemizerError::VocabParse("e".into()), "parse vocab JSON: e"),
    ];
    for (err, text) in cases {
        assert_eq!(err.to_string(), text);
    }
}

#[test]
fn tokens_of_joined_phonemes_are_joined() {
    let p = load_vocab(&[("$", 0), (";", 1), ("h", 2), ("ɛ", 3)]).unwrap();
    let inner = |ipa: &str| {
        let tokens = p.mapper.ipa_to_tokens(ipa);
        tokens[1..tokens.len() - 1].to_vec()
    };
    let (head, tail) = ("hˈɛ", "xhh");
    let mut joined = inner(head);
    joined.extend(inner(tail));
    assert_eq!(inner(&format!("{head}{tail}")), joined);
    assert_eq!(inner(&format!("{head}ˌ?{tail}")), joined);
}
