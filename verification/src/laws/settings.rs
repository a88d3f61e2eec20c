//! Settings, the command line, access, and what is downloaded.
use crate::cli::{reads_stdin, resolve_text, SynthError};
use crate::config::{
    api_key_gate, listen_port, model_dir, model_file, require_api_key, setting_or,
};
use crate::download;
use crate::download::{
    checked_url, download_vocab, model_url, tokenizer_url, vocab_file, voice_file, voice_url,
    DownloadError, DownloadStep, VocabEvent, VocabStep,
};
use crate::handlers;
use crate::inference::pool_size;
use crate::json;
use crate::phonemizer;
use crate::rpc;
use crate::text::{decimal, parse_number, trim};
use crate::voices;
use vstd::prelude::*;

verus! {

/// Where a key is configured, a request passes with that key alone; where none is, every request
/// passes.
pub proof fn key_opens_the_gate(expected: &str, provided: &str, allowed: bool)
    requires
        call_ensures(api_key_gate, (expected, provided), allowed),
    ensures
        expected@.len() == 0 ==> allowed,
        expected@.len() > 0 ==> (allowed <==> provided@ == expected@),
{
}

/// A request that does not pass is answered with status 401. A key that is empty, or a header that is
/// not there, is as good as none.
pub proof fn wrong_keys_are_unauthorized(
    expected: Option<&str>,
    provided: Option<&str>,
    passed: Result<(), u16>,
)
    requires
        call_ensures(require_api_key, (expected, provided), passed),
    ensures
        passed is Ok || passed == Err::<(), u16>(401),
        expected is None || expected->Some_0@.len() == 0 ==> passed is Ok,
        expected is Some && expected->Some_0@.len() > 0 ==> (passed is Ok <==> provided is Some
            && provided->Some_0@ == expected->Some_0@),
{
}

/// A setting stands as it is, and its default stands in for one that is not there.
pub proof fn settings_have_defaults(value: Option<&str>, default: &str, setting: String)
    requires
        call_ensures(setting_or, (value, default), setting),
    ensures
        value matches Some(v) ==> setting@ == v@,
        value is None ==> setting@ == default@,
{
}

/// The model is the quantized one in `./models` unless the settings say otherwise.
pub proof fn model_has_defaults(
    dir_variable: Option<&str>,
    file_variable: Option<&str>,
    dir: String,
    file: String,
)
    requires
        call_ensures(model_dir, (dir_variable,), dir),
        call_ensures(model_file, (file_variable,), file),
    ensures
        dir_variable matches Some(v) ==> dir@ == v@,
        dir_variable is None ==> dir@ == "./models"@,
        file_variable matches Some(v) ==> file@ == v@,
        file_variable is None ==> file@ == "model_quantized.onnx"@,
{
}

/// The port is 8080, or the number that the setting writes; there is none where it does not write a
/// port number.
pub proof fn port_is_read(variable: Option<&str>, port: Option<u16>, read: Option<u64>)
    requires
        call_ensures(listen_port, (variable,), port),
        variable matches Some(v) ==> call_ensures(parse_number, (v, 0xffffu64), read),
    ensures
        variable is None ==> port == Some(8080u16),
        variable is Some ==> (port is Some <==> read is Some),
        variable is Some && port is Some ==> port->Some_0 == read->Some_0,
{
}

/// There are two sessions, or as many as the setting writes.
pub proof fn pool_size_is_read(variable: Option<&str>, size: usize, read: Option<u64>)
    requires
        call_ensures(pool_size, (variable,), size),
        variable matches Some(v) ==> call_ensures(parse_number, (v, usize::MAX as u64), read),
    ensures
        variable is None ==> size == 2,
        variable is Some && read is None ==> size == 2,
        variable is Some && read is Some ==> size == read->Some_0,
{
}

/// The text is the argument as it is. Where that is `-` it is the standard input, trimmed. No text is
/// refused.
pub proof fn text_is_resolved(
    argument: &str,
    stdin: &str,
    trimmed: String,
    from_stdin: bool,
    resolved: Result<String, SynthError>,
)
    requires
        call_ensures(reads_stdin, (argument,), from_stdin),
        call_ensures(trim, (stdin,), trimmed),
        call_ensures(resolve_text, (argument, stdin), resolved),
    ensures
        from_stdin <==> argument@ == seq!['-'],
        match resolved {
            Ok(text) => text@.len() > 0 && text@ == if from_stdin {
                trimmed@
            } else {
                argument@
            },
            Err(SynthError::EmptyInput) => if from_stdin {
                trimmed@.len() == 0
            } else {
                argument@.len() == 0
            },
            Err(_) => false,
        },
{
    reveal_strlit("-");
    assert("-"@ =~= seq!['-']);
}

/// The numbers that the parts of the server agree on: 24000 samples a second, 510 phoneme tokens, 256
/// style elements, and two hours for which a job's state is kept.
pub proof fn numbers_are_agreed()
    ensures
        handlers::SAMPLE_RATE == 24_000,
        phonemizer::MAX_TOKENS == 510,
        voices::STYLE_LEN == 256,
        rpc::JOB_TTL_SECONDS == 2 * 60 * 60,
{
}

/// The model, the tokenizer and the voices are looked up where they are published.
pub proof fn files_are_looked_up(
    file: &str,
    voice: &str,
    model: Result<String, DownloadError>,
    tokenizer: Result<String, DownloadError>,
    style: Result<String, DownloadError>,
    name: String,
)
    requires
        call_ensures(model_url, (file,), model),
        call_ensures(tokenizer_url, (), tokenizer),
        call_ensures(voice_url, (voice,), style),
        call_ensures(voice_file, (voice,), name),
    ensures
        name@ == voice@ + ".bin"@,
        match download::joined_url(
            "https://huggingface.co/onnx-community/Kokoro-82M-v1.0-ONNX/resolve/main/onnx/"@,
            file@,
        ) {
            Ok(url) => model matches Ok(u) && u@ == url,
            Err(reason) => model matches Err(DownloadError::Url(m)) && m@ == reason,
        },
        match download::joined_url(
            "https://huggingface.co/onnx-community/Kokoro-82M-v1.0-ONNX/resolve/main/"@,
            "tokenizer.json"@,
        ) {
            Ok(url) => tokenizer matches Ok(u) && u@ == url,
            Err(reason) => tokenizer matches Err(DownloadError::Url(m)) && m@ == reason,
        },
        match download::joined_url(
            "https://huggingface.co/onnx-community/Kokoro-82M-v1.0-ONNX/resolve/main/"@,
            "voices/"@ + name@,
        ) {
            Ok(url) => style matches Ok(u) && u@ == url,
            Err(reason) => style matches Err(DownloadError::Url(m)) && m@ == reason,
        },
{
    assert("voices/"@ + (voice@ + ".bin"@) =~= "voices/"@ + voice@ + ".bin"@);
}

/// A URL stands as it was joined, and so does the reason why there is none.
pub proof fn urls_are_checked(
    joined: Result<String, String>,
    url: Result<String, DownloadError>,
)
    requires
        call_ensures(checked_url, (joined,), url),
    ensures
        match joined {
            Ok(u) => url matches Ok(s) && s@ == u@,
            Err(reason) => url matches Err(DownloadError::Url(m)) && m@ == reason@,
        },
{
}

/// A file that exists is not fetched, which is said with its name; every other file is.
pub proof fn existing_files_are_kept(dest: &str, exists: bool, step: DownloadStep)
    requires
        call_ensures(download::download, (dest, exists), step),
    ensures
        step is Fetch <==> !exists,
        step matches DownloadStep::Skip(notice) ==> notice@ == "  skip (exists): "@ + dest@,
{
}

/// The file of a vocabulary reads back as its members: each of them with its number, and no other.
pub proof fn vocabulary_file_reads_back(
    entries: Vec<(String, i64)>,
    file: Result<String, DownloadError>,
)
    requires
        call_ensures(vocab_file, (&entries,), file),
        json::distinct_names(entries@),
    ensures
        file is Ok,
        json::vocab_json(file->Ok_0@) is Ok,
        ({
            let members = json::vocab_json(file->Ok_0@)->Ok_0;
            &&& forall|i: int|
                0 <= i < entries@.len() ==> members.contains_key((#[trigger] entries@[i]).0@)
                    && members[entries@[i].0@] == entries@[i].1
            &&& forall|name: Seq<char>| #[trigger]
                members.contains_key(name) ==> exists|i: int|
                    0 <= i < entries@.len() && (#[trigger] entries@[i]).0@ == name
        }),
{
    let members = json::entry_map(entries@);
    assert forall|i: int| 0 <= i < entries@.len() implies members.contains_key(
        (#[trigger] entries@[i]).0@,
    ) && members[entries@[i].0@] == entries@[i].1 by {
        json::entry_is_listed(entries@, i);
    }
    assert forall|name: Seq<char>| #[trigger] members.contains_key(name) implies exists|i: int|
        0 <= i < entries@.len() && (#[trigger] entries@[i]).0@ == name by {
        let i = choose|i: int| json::is_entry(entries@, name, i);
        assert(entries@[i].0@ == name);
    }
}

/// A vocabulary file that exists is kept; else the tokenizer is fetched. The vocabulary of one that
/// could be read is saved as its file, with the number of its members; one that could not be read
/// fails with the reason.
pub proof fn vocabulary_is_downloaded(
    dest: &str,
    event: VocabEvent,
    step: VocabStep,
    file: Result<String, DownloadError>,
    count: String,
)
    requires
        call_ensures(download_vocab, (dest, event), step),
        event matches VocabEvent::Read(Ok(entries)) ==> call_ensures(vocab_file, (&entries,), file)
            && json::distinct_names(entries@) && call_ensures(
            decimal,
            (entries.len() as u64,),
            count,
        ),
    ensures
        match event {
            VocabEvent::Looked(true) => step matches VocabStep::Skip(notice) && notice@
                == "  skip (exists): "@ + dest@,
            VocabEvent::Looked(false) => step matches VocabStep::Fetch(notice) && notice@
                == "  downloading vocab from tokenizer.json…"@,
            VocabEvent::Read(Ok(_)) => file is Ok && (step matches VocabStep::Save { text, notice }
                && text@ == file->Ok_0@ && notice@ == "  ✓ vocab.json ("@ + count@
                + " entries)"@),
            VocabEvent::Read(Err(reason)) => step matches VocabStep::Fail(DownloadError::Json(m))
                && m@ == reason@,
        },
{
}

/// The voices that are published, each by its language, its gender and its name.
pub proof fn published_voices_are_these(names: Vec<&'static str>)
    requires
        call_ensures(download::voices, (), names),
    ensures
        names@.len() == 55,
        names@[0]@ == "af"@,
        names@[1]@ == "af_alloy"@,
        names@[2]@ == "af_aoede"@,
        names@[3]@ == "af_bella"@,
        names@[4]@ == "af_heart"@,
        names@[5]@ == "af_jessica"@,
        names@[6]@ == "af_kore"@,
        names@[7]@ == "af_nicole"@,
        names@[8]@ == "af_nova"@,
        names@[9]@ == "af_river"@,
        names@[10]@ == "af_sarah"@,
        names@[11]@ == "af_sky"@,
        names@[12]@ == "am_adam"@,
        names@[13]@ == "am_echo"@,
        names@[14]@ == "am_eric"@,
        names@[15]@ == "am_fenrir"@,
        names@[16]@ == "am_liam"@,
        names@[17]@ == "am_michael"@,
        names@[18]@ == "am_onyx"@,
        names@[19]@ == "am_puck"@,
        names@[20]@ == "am_santa"@,
        names@[21]@ == "bf_alice"@,
        names@[22]@ == "bf_emma"@,
        names@[23]@ == "bf_isabella"@,
        names@[24]@ == "bf_lily"@,
        names@[25]@ == "bm_daniel"@,
        names@[26]@ == "bm_fable"@,
        names@[27]@ == "bm_george"@,
        names@[28]@ == "bm_lewis"@,
        names@[29]@ == "ef_dora"@,
        names@[30]@ == "em_alex"@,
        names@[31]@ == "em_santa"@,
        names@[32]@ == "ff_siwis"@,
        names@[33]@ == "hf_alpha"@,
        names@[34]@ == "hf_beta"@,
        names@[35]@ == "hm_omega"@,
        names@[36]@ == "hm_psi"@,
        names@[37]@ == "if_sara"@,
        names@[38]@ == "im_nicola"@,
        names@[39]@ == "jf_alpha"@,
        names@[40]@ == "jf_gongitsune"@,
        names@[41]@ == "jf_nezumi"@,
        names@[42]@ == "jf_tebukuro"@,
        names@[43]@ == "jm_kumo"@,
        names@[44]@ == "pf_dora"@,
        names@[45]@ == "pm_alex"@,
        names@[46]@ == "pm_santa"@,
        names@[47]@ == "zf_xiaobei"@,
        names@[48]@ == "zf_xiaoni"@,
        names@[49]@ == "zf_xiaoxiao"@,
        names@[50]@ == "zf_xiaoyi"@,
        names@[51]@ == "zm_yunjian"@,
        names@[52]@ == "zm_yunxi"@,
        names@[53]@ == "zm_yunxia"@,
        names@[54]@ == "zm_yunyang"@,
{
}

} // verus!
