use tts_rs::error::VoiceError;
use tts_rs::voices::{is_voice_file, VoiceBank, VoiceFile};

fn file(name: &str, contents: Result<Vec<u8>, String>) -> VoiceFile {
    let (stem, extension) = match name.rsplit_once('.') {
        Some((stem, extension)) => (stem, Some(extension.to_owned())),
        None => (name, None),
    };
    VoiceFile {
        path: format!("voices/{name}"),
        extension,
        stem: Some(stem.to_owned()),
        contents,
    }
}

fn voice_bin(name: &str, n_styles: usize) -> Result<VoiceFile, String> {
    let floats: Vec<f32> = (0..n_styles * 256).map(|i| i as f32 * 0.001).collect();
    let bytes: Vec<u8> = floats.iter().flat_map(|f| f.to_le_bytes()).collect();
    Ok(file(&format!("{name}.bin"), Ok(bytes)))
}

fn load(entries: Vec<Result<VoiceFile, String>>) -> Result<VoiceBank, VoiceError> {
    VoiceBank::load("voices", Ok(entries))
}

#[test]
fn load_and_list_voices() {
    let bank = load(vec![voice_bin("af_heart", 10), voice_bin("am_adam", 8)]).unwrap();
    let names = bank.voice_names();
    assert_eq!(names, vec!["af_heart", "am_adam"]);
}

#[test]
fn get_style_256_floats() {
    let bank = load(vec![voice_bin("af_heart", 20)]).unwrap();
    let style = bank.get_style("af_heart", 5).unwrap();
    assert_eq!(style.len(), 256);
}

#[test]
fn get_style_clamps_seq_len() {
    let bank = load(vec![voice_bin("af_heart", 4)]).unwrap();
    let style = bank.get_style("af_heart", 9999).unwrap();
    assert_eq!(style.len(), 256);
    let expected_first = 3.0 * 256.0 * 0.001;
    assert!((f32::from_bits(style[0]) - expected_first).abs() < 1e-4);
}

#[test]
fn unknown_voice_variant() {
    let bank = load(vec![voice_bin("af_heart", 5)]).unwrap();
    let err = bank.get_style("nonexistent", 0).unwrap_err();
    assert!(
        matches!(err, VoiceError::UnknownVoice { ref name } if name == "nonexistent"),
        "got {err:?}",
    );
}

#[test]
fn empty_dir_error() {
    let err = load(vec![]).unwrap_err();
    assert!(matches!(err, VoiceError::EmptyVoicesDir(_)), "got {err:?}");
}

#[test]
fn invalid_bin_variant() {
    let err = load(vec![Ok(file("bad.bin", Ok(vec![0u8; 5])))]).unwrap_err();
    assert!(
        matches!(err, VoiceError::InvalidBinSize { .. }),
        "got {err:?}",
    );
}

#[test]
fn dir_open_has_path() {
    let err = VoiceError::DirOpen {
        path: "/missing/voices".into(),
        source: std::io::Error::new(std::io::ErrorKind::NotFound, "not found").to_string(),
    };
    assert!(err.to_string().contains("/missing/voices"));
}

#[test]
fn unknown_voice_has_name() {
    let err = VoiceError::UnknownVoice {
        name: "af_mystery".into(),
    };
    assert!(err.to_string().contains("af_mystery"));
}

#[test]
fn bin_size_error_details() {
    let err = VoiceError::InvalidBinSize {
        path: "/tmp/bad.bin".into(),
        len: 5,
    };
    let msg = err.to_string();
    assert!(msg.contains("/tmp/bad.bin"));
    assert!(msg.contains("5 bytes"));
}

#[test]
fn rows_are_picked_by_the_number_of_tokens() {
    let bank = load(vec![voice_bin("v", 3)]).unwrap();
    for (seq_len, row) in [(0, 0), (1, 1), (2, 2), (3, 2), (512, 2), (usize::MAX, 2)] {
        let style = bank.get_style("v", seq_len).unwrap();
        let expected: Vec<u32> =
            (row * 256..(row + 1) * 256).map(|i| (i as f32 * 0.001).to_bits()).collect();
        assert_eq!(style, expected, "{seq_len}");
    }
}

#[test]
fn names_are_sorted_and_later_files_win() {
    let bank = load(vec![
        voice_bin("b", 1),
        voice_bin("zz", 1),
        voice_bin("a", 1),
        voice_bin("b", 2),
        voice_bin("B", 1),
    ])
    .unwrap();
    assert_eq!(bank.voice_names(), vec!["B", "a", "b", "zz"]);
    let second = bank.get_style("b", 9).unwrap();
    assert_eq!(second[0], (256.0f32 * 0.001).to_bits());
}

#[test]
fn voice_without_rows_has_no_style() {
    let bank = load(vec![voice_bin("empty", 0)]).unwrap();
    assert_eq!(bank.voice_names(), vec!["empty"]);
    let err = bank.get_style("empty", 1).unwrap_err();
    assert_eq!(err.to_string(), "voice 'empty' has zero style embeddings");
}

#[test]
fn other_files_are_passed_over() {
    let entries = vec![
        Ok(file("README.md", Err("unread".to_owned()))),
        Ok(file("notes", Err("unread".to_owned()))),
        Ok(file("x.BIN", Ok(vec![0; 5]))),
        voice_bin("a", 1),
    ];
    assert_eq!(load(entries).unwrap().voice_names(), vec!["a"]);
    assert!(is_voice_file(Some("bin")));
    assert!(!is_voice_file(Some("bins")));
    assert!(!is_voice_file(None));
}

#[test]
fn first_failure_is_reported() {
    let err = VoiceBank::load("v", Err("denied".to_owned())).unwrap_err();
    assert_eq!(err.to_string(), "open voices directory `v`: denied");
    let err = load(vec![voice_bin("a", 1), Err("lost".to_owned()), Ok(file("b.bin", Ok(vec![1])))])
        .unwrap_err();
    assert_eq!(err.to_string(), "read directory entry: lost");
    let err = load(vec![Ok(file("b.bin", Err("denied".to_owned())))]).unwrap_err();
    assert_eq!(err.to_string(), "read voice file `voices/b.bin`: denied");
    let nameless = VoiceFile {
        path: "voices/?.bin".to_owned(),
        extension: Some("bin".to_owned()),
        stem: None,
        contents: Err("unread".to_owned()),
    };
    let err = load(vec![Ok(nameless)]).unwrap_err();
    assert_eq!(err.to_string(), "invalid voice filename: `voices/?.bin`");
    let err = load(vec![Ok(file("b.bin", Ok(vec![0; 1020])))]).unwrap_err();
    assert_eq!(
        err.to_string(),
        "voice file `voices/b.bin` has 1020 bytes, which is not a multiple of 256 × 4"
    );
    let err = load(vec![]).unwrap_err();
    assert_eq!(err.to_string(), "no .bin voice files found in `voices`");
}

#[test]
fn words_are_little_endian() {
    let mut bytes = vec![0u8; 1024];
    bytes[0..4].copy_from_slice(&[1, 2, 3, 0x84]);
    bytes[1020..1024].copy_from_slice(&[0xff, 0xff, 0xff, 0xff]);
    let bank = load(vec![Ok(file("v.bin", Ok(bytes)))]).unwrap();
    let style = bank.get_style("v", 0).unwrap();
    assert_eq!(style[0], 0x8403_0201);
    assert_eq!(style[255], 0xffff_ffff);
}
