//! Voices: their files, their names and their styles.
use crate::error::{VoiceError, VoiceErrorView};
use crate::handlers;
use crate::handlers::{health, HealthResponse, VoicesResponse};
use crate::text::text_precedes;
use crate::voices;
use crate::voices::{is_voice_file, VoiceBank, VoiceFile};
use vstd::prelude::*;

verus! {

/// The style for a number of tokens is the row of that number: 256 elements from 256 times the number
/// on. Where there are not so many rows it is the last one.
pub proof fn style_is_the_row_of_the_length(
    bank: VoiceBank,
    voice: &str,
    seq_len: usize,
    style: Result<Vec<u32>, VoiceError>,
)
    requires
        call_ensures(VoiceBank::get_style, (&bank, voice, seq_len), style),
        bank@.contains_key(voice@),
        bank@[voice@].len() >= 256,
    ensures
        style matches Ok(row) && row@.len() == 256,
        256 * (seq_len + 1) <= bank@[voice@].len() ==> forall|i: int|
            0 <= i < 256 ==> #[trigger] style->Ok_0@[i] == bank@[voice@][256 * seq_len + i],
        256 * (seq_len + 1) > bank@[voice@].len() ==> forall|i: int|
            0 <= i < 256 ==> #[trigger] style->Ok_0@[i] == bank@[voice@][256 * (bank@[voice@].len()
                / 256 - 1) + i],
{
    let styles = bank@[voice@];
    let row = style->Ok_0@;
    assert(row =~= voices::style_row(styles, seq_len as nat));
}

/// A voice that was not loaded is unknown, and one without a row has no style.
pub proof fn other_voices_have_no_style(
    bank: VoiceBank,
    voice: &str,
    seq_len: usize,
    style: Result<Vec<u32>, VoiceError>,
)
    requires
        call_ensures(VoiceBank::get_style, (&bank, voice, seq_len), style),
    ensures
        !bank@.contains_key(voice@) ==> (style matches Err(VoiceError::UnknownVoice { name })
            && name@ == voice@),
        bank@.contains_key(voice@) && bank@[voice@].len() < 256 ==> (style matches Err(
            VoiceError::ZeroStyles { name },
        ) && name@ == voice@),
{
}

/// Voice files have the extension `bin`, and no other files are.
pub proof fn voice_files_end_in_bin(extension: Option<&str>, yes: bool)
    requires
        call_ensures(is_voice_file, (extension,), yes),
    ensures
        yes <==> (extension matches Some(e) && e@ == seq!['b', 'i', 'n']),
{
    reveal_strlit("bin");
    assert("bin"@ =~= seq!['b', 'i', 'n']);
}

/// A directory that cannot be listed is not loaded.
pub proof fn unlisted_directory_is_not_loaded(
    voices_dir: &str,
    reason: String,
    loaded: Result<VoiceBank, VoiceError>,
)
    requires
        call_ensures(VoiceBank::load, (voices_dir, Err(reason)), loaded),
    ensures
        loaded matches Err(VoiceError::DirOpen { path, source }) && path@ == voices_dir@ && source@
            == reason@,
{
}

proof fn entries_that_are_taken(entries: Seq<Result<VoiceFile, String>>, i: int)
    requires
        voices::entries_voices(entries) is Ok,
        0 <= i < entries.len(),
    ensures
        !(voices::entry_voice(entries[i]) matches Some(Err(_))),
        voices::entry_voice(entries[i]) matches Some(Ok(voice)) ==> voices::entries_voices(
            entries,
        )->Ok_0.contains_key(voice.0),
    decreases entries.len(),
{
    if i < entries.len() - 1 {
        entries_that_are_taken(entries.drop_last(), i);
        assert(entries.drop_last()[i] == entries[i]);
    }
}

proof fn entry_of_a_voice(entries: Seq<Result<VoiceFile, String>>, name: Seq<char>) -> (i: int)
    requires
        voices::entries_voices(entries) matches Ok(voices) && voices.contains_key(name),
    ensures
        0 <= i < entries.len(),
        voices::entry_voice(entries[i]) == Some(
            Ok::<(Seq<char>, Seq<u32>), VoiceErrorView>(
                (name, voices::entries_voices(entries)->Ok_0[name]),
            ),
        ),
        forall|j: int|
            i < j < entries.len() ==> !(voices::entry_voice(#[trigger] entries[j]) matches Some(
                Ok(later),
            ) && later.0 == name),
    decreases entries.len(),
{
    let last = entries.len() - 1;
    if voices::entry_voice(entries.last()) matches Some(Ok(voice)) && voice.0 == name {
        last
    } else {
        let rest = entries.drop_last();
        let i = entry_of_a_voice(rest, name);
        assert(rest[i] == entries[i]);
        assert forall|j: int| i < j < entries.len() implies !(voices::entry_voice(
            #[trigger] entries[j],
        ) matches Some(Ok(later)) && later.0 == name) by {
            if j < last {
                assert(rest[j] == entries[j]);
            }
        }
        i
    }
}

proof fn entry_of_an_error(entries: Seq<Result<VoiceFile, String>>) -> (i: int)
    requires
        voices::entries_voices(entries) is Err,
    ensures
        0 <= i < entries.len(),
        voices::entry_voice(entries[i]) == Some(
            Err::<(Seq<char>, Seq<u32>), VoiceErrorView>(voices::entries_voices(entries)->Err_0),
        ),
        forall|j: int|
            0 <= j < i ==> !(voices::entry_voice(#[trigger] entries[j]) matches Some(Err(_))),
    decreases entries.len(),
{
    let rest = entries.drop_last();
    if voices::entries_voices(rest) is Err {
        let i = entry_of_an_error(rest);
        assert(rest[i] == entries[i]);
        assert forall|j: int| 0 <= j < i implies !(voices::entry_voice(
            #[trigger] entries[j],
        ) matches Some(Err(_))) by {
            assert(rest[j] == entries[j]);
        }
        i
    } else {
        assert forall|j: int| 0 <= j < entries.len() - 1 implies !(voices::entry_voice(
            #[trigger] entries[j],
        ) matches Some(Err(_))) by {
            entries_that_are_taken(rest, j);
            assert(rest[j] == entries[j]);
        }
        entries.len() - 1
    }
}

/// Every voice file of a directory that was loaded had a name, could be read and held whole rows of
/// 256 numbers, and its voice is in the bank.
pub proof fn every_voice_file_is_loaded(
    voices_dir: &str,
    entries: Vec<Result<VoiceFile, String>>,
    bank: VoiceBank,
    i: int,
)
    requires
        call_ensures(VoiceBank::load, (voices_dir, Ok(entries)), Ok(bank)),
        0 <= i < entries@.len(),
    ensures
        entries@[i] is Ok,
        ({
            let file = entries@[i]->Ok_0;
            (file.extension matches Some(e) && e@ == "bin"@) ==> {
                &&& file.stem is Some
                &&& file.contents is Ok
                &&& file.contents->Ok_0@.len() % 1024 == 0
                &&& bank@.contains_key(file.stem->Some_0@)
            }
        }),
{
    entries_that_are_taken(entries@, i);
}

/// Every voice of a bank is that of the last voice file with its name: the numbers of the file, four
/// bytes each with the low byte first, all of them and in order.
pub proof fn every_voice_is_that_of_its_file(
    voices_dir: &str,
    entries: Vec<Result<VoiceFile, String>>,
    bank: VoiceBank,
    name: Seq<char>,
) -> (i: int)
    requires
        call_ensures(VoiceBank::load, (voices_dir, Ok(entries)), Ok(bank)),
        bank@.contains_key(name),
    ensures
        0 <= i < entries@.len(),
        entries@[i] is Ok,
        ({
            let file = entries@[i]->Ok_0;
            let bytes = file.contents->Ok_0@;
            &&& file.extension is Some && file.extension->Some_0@ == "bin"@
            &&& file.stem is Some && file.stem->Some_0@ == name
            &&& file.contents is Ok
            &&& bytes.len() == 4 * bank@[name].len()
            &&& forall|k: int|
                0 <= k < bank@[name].len() ==> #[trigger] bank@[name][k] == bytes[4 * k] + 0x100
                    * bytes[4 * k + 1] + 0x1_0000 * bytes[4 * k + 2] + 0x100_0000 * bytes[4 * k + 3]
        }),
        forall|j: int|
            i < j < entries@.len() ==> match #[trigger] entries@[j] {
                Ok(later) => !(later.extension is Some && later.extension->Some_0@ == "bin"@
                    && later.stem is Some && later.stem->Some_0@ == name),
                Err(_) => false,
            },
{
    let i = entry_of_a_voice(entries@, name);
    assert forall|j: int| i < j < entries@.len() implies match #[trigger] entries@[j] {
        Ok(later) => !(later.extension is Some && later.extension->Some_0@ == "bin"@
            && later.stem is Some && later.stem->Some_0@ == name),
        Err(_) => false,
    } by {
        entries_that_are_taken(entries@, j);
    }
    i
}

/// A directory that was listed is not loaded for one of these reasons: its first entry at fault could
/// not be read, or is a voice file that has no name, could not be read or does not hold whole rows;
/// or no entry is at fault, and none is a voice file.
pub proof fn first_fault_is_reported(
    voices_dir: &str,
    entries: Vec<Result<VoiceFile, String>>,
    error: VoiceError,
) -> (i: int)
    requires
        call_ensures(VoiceBank::load, (voices_dir, Ok(entries)), Err(error)),
    ensures
        0 <= i <= entries@.len(),
        forall|j: int|
            0 <= j < i ==> (#[trigger] entries@[j] matches Ok(file) && ((file.extension matches Some(e)
                && e@ == "bin"@) ==> file.stem is Some && (file.contents matches Ok(bytes)
                && bytes@.len() % 1024 == 0))),
        i == entries@.len() ==> {
            &&& error matches VoiceError::EmptyVoicesDir(path) && path@ == voices_dir@
            &&& forall|j: int|
                0 <= j < i ==> !(#[trigger] entries@[j]->Ok_0.extension matches Some(e) && e@
                    == "bin"@)
        },
        i < entries@.len() ==> match entries@[i] {
            Err(reason) => error matches VoiceError::DirEntry(source) && source@ == reason@,
            Ok(file) => {
                &&& file.extension matches Some(e) && e@ == "bin"@
                &&& match (file.stem, file.contents) {
                    (None, _) => error matches VoiceError::InvalidFilename(path) && path@
                        == file.path@,
                    (Some(_), Err(reason)) => error matches VoiceError::FileRead { path, source }
                        && path@ == file.path@ && source@ == reason@,
                    (Some(_), Ok(bytes)) => bytes@.len() % 1024 != 0 && (
                    error matches VoiceError::InvalidBinSize { path, len } && path@ == file.path@
                        && len == bytes@.len()),
                }
            },
        },
{
    if voices::entries_voices(entries@) is Err {
        let i = entry_of_an_error(entries@);
        assert forall|j: int| 0 <= j < i implies (#[trigger] entries@[j] matches Ok(file) && ((
        file.extension matches Some(e) && e@ == "bin"@) ==> file.stem is Some && (
        file.contents matches Ok(bytes) && bytes@.len() % 1024 == 0))) by {
            assert(!(voices::entry_voice(entries@[j]) matches Some(Err(_))));
        }
        i
    } else {
        let all = entries@.len() as int;
        assert forall|j: int| 0 <= j < all implies #[trigger] entries@[j] is Ok
            && voices::entry_voice(entries@[j]) is None by {
            entries_that_are_taken(entries@, j);
        }
        all
    }
}

/// Every name of a bank is listed once, and nothing else; each before those that it precedes.
pub proof fn names_are_listed_in_order(bank: VoiceBank, names: Vec<&str>)
    requires
        call_ensures(VoiceBank::voice_names, (&bank,), names),
    ensures
        names@.len() == bank@.dom().len(),
        forall|i: int| 0 <= i < names@.len() ==> bank@.contains_key((#[trigger] names@[i])@),
        forall|name: Seq<char>|
            bank@.contains_key(name) ==> exists|i: int|
                0 <= i < names@.len() && (#[trigger] names@[i])@ == name,
        forall|i: int, j: int, precedes: bool|
            0 <= i < j < names@.len() && #[trigger] call_ensures(
                text_precedes,
                (names@[i], names@[j]),
                precedes,
            ) ==> precedes,
{
    assert forall|i: int| 0 <= i < names@.len() implies bank@.contains_key(
        (#[trigger] names@[i])@,
    ) by {
        let name = names@[i]@;
        assert(exists|k: int| 0 <= k < names@.len() && (#[trigger] names@[k])@ == name);
    }
}

/// A request for the voices is answered with the names of all, and of no other.
pub proof fn answer_lists_the_names(bank: VoiceBank, answer: VoicesResponse)
    requires
        call_ensures(handlers::voices, (&bank,), answer),
    ensures
        answer.voices@.len() == bank@.dom().len(),
        forall|i: int|
            0 <= i < answer.voices@.len() ==> bank@.contains_key((#[trigger] answer.voices@[i])@),
        forall|name: Seq<char>|
            bank@.contains_key(name) ==> exists|i: int|
                0 <= i < answer.voices@.len() && (#[trigger] answer.voices@[i])@ == name,
{
}

/// The names of the answer are in order.
pub proof fn answer_is_in_order(
    bank: VoiceBank,
    answer: VoicesResponse,
    i: int,
    j: int,
    name: &str,
    later: &str,
    precedes: bool,
)
    requires
        call_ensures(handlers::voices, (&bank,), answer),
        0 <= i < j < answer.voices@.len(),
        name@ == answer.voices@[i]@,
        later@ == answer.voices@[j]@,
        call_ensures(text_precedes, (name, later), precedes),
    ensures
        precedes,
{
}

/// The server is healthy where Redis was reached and a voice is loaded; it says so with status 200,
/// and else with status 503.
pub proof fn health_needs_redis_and_a_voice(
    redis_ok: bool,
    bank: VoiceBank,
    answer: (u16, HealthResponse),
)
    requires
        call_ensures(health, (redis_ok, &bank), answer),
    ensures
        answer.1.voices_loaded == bank@.dom().len(),
        answer.1.redis@ == if redis_ok {
            "ok"@
        } else {
            "error"@
        },
        redis_ok && answer.1.voices_loaded >= 1 ==> answer.0 == 200 && answer.1.status@ == "ok"@,
        !redis_ok || answer.1.voices_loaded == 0 ==> answer.0 == 503 && answer.1.status@
            == "degraded"@,
{
}

} // verus!
