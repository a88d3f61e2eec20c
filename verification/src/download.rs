//! The model files that are downloaded.
use crate::error::{framed, prefixed, PhonemizerError};
use crate::json;
use crate::phonemizer;
use crate::phonemizer::VocabMapper;
use crate::text;
use vstd::prelude::*;

verus! {

/// The model weights, below which their file names are looked up.
pub const ONNX_BASE: &'static str =
    "https://huggingface.co/onnx-community/Kokoro-82M-v1.0-ONNX/resolve/main/onnx/";

/// The tokenizer and the voices, below which their file names are looked up.
pub const ROOT_BASE: &'static str =
    "https://huggingface.co/onnx-community/Kokoro-82M-v1.0-ONNX/resolve/main/";

/// The names of the published voices.
pub open spec fn published_voices() -> Seq<Seq<char>> {
    seq![
        // American English - Female
        "af"@,
        "af_alloy"@,
        "af_aoede"@,
        "af_bella"@,
        "af_heart"@,
        "af_jessica"@,
        "af_kore"@,
        "af_nicole"@,
        "af_nova"@,
        "af_river"@,
        "af_sarah"@,
        "af_sky"@,
        // American English - Male
        "am_adam"@,
        "am_echo"@,
        "am_eric"@,
        "am_fenrir"@,
        "am_liam"@,
        "am_michael"@,
        "am_onyx"@,
        "am_puck"@,
        "am_santa"@,
        // British English - Female
        "bf_alice"@,
        "bf_emma"@,
        "bf_isabella"@,
        "bf_lily"@,
        // British English - Male
        "bm_daniel"@,
        "bm_fable"@,
        "bm_george"@,
        "bm_lewis"@,
        // European Spanish
        "ef_dora"@,
        "em_alex"@,
        "em_santa"@,
        // French
        "ff_siwis"@,
        // Hindi
        "hf_alpha"@,
        "hf_beta"@,
        "hm_omega"@,
        "hm_psi"@,
        // Italian
        "if_sara"@,
        "im_nicola"@,
        // Japanese
        "jf_alpha"@,
        "jf_gongitsune"@,
        "jf_nezumi"@,
        "jf_tebukuro"@,
        "jm_kumo"@,
        // Portuguese
        "pf_dora"@,
        "pm_alex"@,
        "pm_santa"@,
        // Chinese (Mandarin)
        "zf_xiaobei"@,
        "zf_xiaoni"@,
        "zf_xiaoxiao"@,
        "zf_xiaoyi"@,
        "zm_yunjian"@,
        "zm_yunxi"@,
        "zm_yunxia"@,
        "zm_yunyang"@,
    ]
}

/// The names of the published voices.
pub fn voices() -> (names: Vec<&'static str>)
    ensures
        names@.map_values(|name: &'static str| name@) == published_voices(),
        names@.len() == published_voices().len(),
        forall|i: int|
            0 <= i < names@.len() ==> (#[trigger] names@[i])@ == published_voices()[i],
{
    let mut names: Vec<&'static str> = Vec::new();
    // American English - Female
    names.push("af");
    names.push("af_alloy");
    names.push("af_aoede");
    names.push("af_bella");
    names.push("af_heart");
    names.push("af_jessica");
    names.push("af_kore");
    names.push("af_nicole");
    names.push("af_nova");
    names.push("af_river");
    names.push("af_sarah");
    names.push("af_sky");
    // American English - Male
    names.push("am_adam");
    names.push("am_echo");
    names.push("am_eric");
    names.push("am_fenrir");
    names.push("am_liam");
    names.push("am_michael");
    names.push("am_onyx");
    names.push("am_puck");
    names.push("am_santa");
    // British English - Female
    names.push("bf_alice");
    names.push("bf_emma");
    names.push("bf_isabella");
    names.push("bf_lily");
    // British English - Male
    names.push("bm_daniel");
    names.push("bm_fable");
    names.push("bm_george");
    names.push("bm_lewis");
    // European Spanish
    names.push("ef_dora");
    names.push("em_alex");
    names.push("em_santa");
    // French
    names.push("ff_siwis");
    // Hindi
    names.push("hf_alpha");
    names.push("hf_beta");
    names.push("hm_omega");
    names.push("hm_psi");
    // Italian
    names.push("if_sara");
    names.push("im_nicola");
    // Japanese
    names.push("jf_alpha");
    names.push("jf_gongitsune");
    names.push("jf_nezumi");
    names.push("jf_tebukuro");
    names.push("jm_kumo");
    // Portuguese
    names.push("pf_dora");
    names.push("pm_alex");
    names.push("pm_santa");
    // Chinese (Mandarin)
    names.push("zf_xiaobei");
    names.push("zf_xiaoni");
    names.push("zf_xiaoxiao");
    names.push("zf_xiaoyi");
    names.push("zm_yunjian");
    names.push("zm_yunxi");
    names.push("zm_yunxia");
    names.push("zm_yunyang");
    let ghost texts = names@.map_values(|name: &'static str| name@);
    assert(texts =~= published_voices());
    assert forall|i: int| 0 <= i < names@.len() implies (#[trigger] names@[i])@
        == published_voices()[i] by {
        assert(texts[i] == names@[i]@);
    }
    names
}

/// What can go wrong with a download.
#[derive(Debug)]
pub enum DownloadError {
    Io(String),
    Http(String),
    Json(String),
    Url(String),
}

impl DownloadError {
    /// The text of the error.
    pub open spec fn message(self) -> Seq<char> {
        match self {
            DownloadError::Io(m) => "filesystem: "@ + m@,
            DownloadError::Http(m) => "HTTP: "@ + m@,
            DownloadError::Json(m) => "JSON: "@ + m@,
            DownloadError::Url(m) => "URL parse: "@ + m@,
        }
    }

    /// The text of the error.
    pub fn to_string(&self) -> (message: String)
        ensures
            message@ == self.message(),
    {
        match self {
            DownloadError::Io(m) => prefixed("filesystem: ", m.as_str()),
            DownloadError::Http(m) => prefixed("HTTP: ", m.as_str()),
            DownloadError::Json(m) => prefixed("JSON: ", m.as_str()),
            DownloadError::Url(m) => prefixed("URL parse: ", m.as_str()),
        }
    }
}

/// What the `url` crate makes of a reference, looked up from a base: the URL, or the text of the
/// error.
pub uninterp spec fn joined_url(base: Seq<char>, reference: Seq<char>) -> Result<
    Seq<char>,
    Seq<char>,
>;

/// Looks a reference up from a base.
///
/// Calls `url::Url::parse` on the base and `url::Url::join` on the reference. Claims that the URL,
/// or the error's text, depends on the two alone.
#[verifier::external_body]
fn join_url(base: &str, reference: &str) -> (url: Result<String, String>)
    ensures
        match (url, joined_url(base@, reference@)) {
            (Ok(u), Ok(expected)) => u@ == expected,
            (Err(e), Err(expected)) => e@ == expected,
            _ => false,
        },
{
    match url::Url::parse(base).and_then(|base| base.join(reference)) {
        Ok(url) => Ok(url.to_string()),
        Err(e) => Err(e.to_string()),
    }
}

/// `url` is the outcome of looking `reference` up from `base`.
pub open spec fn looks_up(
    url: Result<String, DownloadError>,
    base: Seq<char>,
    reference: Seq<char>,
) -> bool {
    match joined_url(base, reference) {
        Ok(u) => url matches Ok(s) && s@ == u,
        Err(m) => url matches Err(DownloadError::Url(e)) && e@ == m,
    }
}

/// The URL that looking a reference up gave.
pub fn checked_url(joined: Result<String, String>) -> (url: Result<String, DownloadError>)
    ensures
        match joined {
            Ok(u) => url matches Ok(s) && s@ == u@,
            Err(m) => url matches Err(DownloadError::Url(e)) && e@ == m@,
        },
{
    match joined {
        Ok(url) => Ok(url),
        Err(e) => Err(DownloadError::Url(e)),
    }
}

/// The URL of a model file.
pub fn model_url(model_file: &str) -> (url: Result<String, DownloadError>)
    ensures
        looks_up(url, ONNX_BASE@, model_file@),
{
    checked_url(join_url(ONNX_BASE, model_file))
}

/// The URL of the tokenizer, which holds the vocabulary.
pub fn tokenizer_url() -> (url: Result<String, DownloadError>)
    ensures
        looks_up(url, ROOT_BASE@, "tokenizer.json"@),
{
    checked_url(join_url(ROOT_BASE, "tokenizer.json"))
}

/// The file name of a voice.
pub fn voice_file(voice: &str) -> (name: String)
    ensures
        name@ == voice@ + ".bin"@,
{
    prefixed(voice, ".bin")
}

/// The URL of a voice.
pub fn voice_url(voice: &str) -> (url: Result<String, DownloadError>)
    ensures
        looks_up(url, ROOT_BASE@, "voices/"@ + voice@ + ".bin"@),
{
    checked_url(join_url(ROOT_BASE, framed("voices/", voice, ".bin").as_str()))
}

/// What to do about a file that is to be downloaded.
#[derive(Debug, PartialEq, Eq)]
pub enum DownloadStep {
    /// It is there; say so.
    Skip(String),
    Fetch,
}

/// A file that exists is not downloaded again.
pub fn download(dest: &str, exists: bool) -> (step: DownloadStep)
    ensures
        exists ==> (step matches DownloadStep::Skip(notice) && notice@ == "  skip (exists): "@
            + dest@),
        !exists ==> step is Fetch,
{
    if exists {
        DownloadStep::Skip(prefixed("  skip (exists): ", dest))
    } else {
        DownloadStep::Fetch
    }
}

/// `text` is the vocabulary file with the given members, and reads back as them.
pub open spec fn is_vocab_file(text: Seq<char>, members: Map<Seq<char>, i64>) -> bool {
    &&& text == json::pretty_json(members)
    &&& json::vocab_json(text) == Ok::<Map<Seq<char>, i64>, Seq<char>>(members)
}

/// The text of the vocabulary file with the given members, which have distinct names.
pub fn vocab_file(entries: &Vec<(String, i64)>) -> (text: Result<String, DownloadError>)
    requires
        json::distinct_names(entries@),
    ensures
        text matches Ok(s) && is_vocab_file(s@, json::entry_map(entries@)),
{
    match json::write_vocab(entries) {
        Ok(text) => Ok(text),
        Err(e) => Err(DownloadError::Json(e)),
    }
}

/// What happened on the way to the vocabulary file.
#[derive(Debug)]
pub enum VocabEvent {
    /// Whether the file exists.
    Looked(bool),
    /// What reading the vocabulary of the tokenizer gave.
    Read(Result<Vec<(String, i64)>, String>),
}

/// What to do about the vocabulary file.
#[derive(Debug)]
pub enum VocabStep {
    /// It is there; say so, and leave it as it is.
    Skip(String),
    /// Say so, and fetch the tokenizer.
    Fetch(String),
    /// Save this text, and say so.
    Save { text: String, notice: String },
    /// Give up; there is nothing to save.
    Fail(DownloadError),
}

/// `step` follows on `event`: a file that exists is kept, else the tokenizer is fetched, and its
/// vocabulary is saved whole where it could be read.
pub open spec fn vocab_follows(dest: Seq<char>, event: VocabEvent, step: VocabStep) -> bool {
    match event {
        VocabEvent::Looked(true) => step matches VocabStep::Skip(notice) && notice@
            == "  skip (exists): "@ + dest,
        VocabEvent::Looked(false) => step matches VocabStep::Fetch(notice) && notice@
            == "  downloading vocab from tokenizer.json…"@,
        VocabEvent::Read(Ok(entries)) => step matches VocabStep::Save { text, notice }
            && is_vocab_file(text@, json::entry_map(entries@)) && notice@ == "  ✓ vocab.json ("@
            + text::decimal_text(entries@.len()) + " entries)"@,
        VocabEvent::Read(Err(m)) => step matches VocabStep::Fail(DownloadError::Json(e)) && e@
            == m@,
    }
}

/// The next step on the way to the vocabulary file at `dest`.
pub fn download_vocab(dest: &str, event: VocabEvent) -> (step: VocabStep)
    requires
        event matches VocabEvent::Read(Ok(entries)) ==> json::distinct_names(entries@),
    ensures
        vocab_follows(dest@, event, step),
{
    match event {
        VocabEvent::Looked(true) => VocabStep::Skip(prefixed("  skip (exists): ", dest)),
        VocabEvent::Looked(false) => {
            VocabStep::Fetch("  downloading vocab from tokenizer.json…".to_owned())
        },
        VocabEvent::Read(Err(e)) => VocabStep::Fail(DownloadError::Json(e)),
        VocabEvent::Read(Ok(entries)) => {
            let count = text::decimal(entries.len() as u64);
            match vocab_file(&entries) {
                Ok(text) => VocabStep::Save {
                    text,
                    notice: framed("  ✓ vocab.json (", count.as_str(), " entries)"),
                },
                Err(e) => VocabStep::Fail(e),
            }
        },
    }
}

/// A vocabulary file that exists is kept: nothing is fetched and nothing is saved.
pub proof fn existing_vocabulary_is_kept(dest: Seq<char>, step: VocabStep)
    requires
        vocab_follows(dest, VocabEvent::Looked(true), step),
    ensures
        !(step is Fetch),
        !(step is Save),
        !(step is Fail),
{
}

/// The vocabulary of a tokenizer is saved and loaded whole: what is saved reads back as its
/// members, none dropped, and loading it makes the mapper of these members.
pub proof fn downloaded_vocabulary_is_loaded(
    dest: Seq<char>,
    entries: Vec<(String, i64)>,
    step: VocabStep,
    mapper: Result<VocabMapper, PhonemizerError>,
)
    requires
        vocab_follows(dest, VocabEvent::Read(Ok(entries)), step),
        step matches VocabStep::Save { text, notice } ==> phonemizer::maps_vocab_file(
            mapper,
            dest,
            Ok(text),
        ),
    ensures
        step matches VocabStep::Save { text, notice } && json::vocab_json(text@) == Ok::<
            Map<Seq<char>, i64>,
            Seq<char>,
        >(json::entry_map(entries@)),
        phonemizer::maps_members(mapper, json::entry_map(entries@)),
{
}

} // verus!
