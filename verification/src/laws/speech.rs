//! Phonemes: backends, the vocabulary and token sequences.
use crate::error::PhonemizerError;
use crate::json;
use crate::misaki;
use crate::misaki::readable;
use crate::phonemizer;
use crate::phonemizer::{
    EspeakBackend, EspeakRun, MisakiBackend, Phonemizer, PhonemizerBackend, PhonemizerKind,
    SelectedBackend, VocabMapper,
};
use vstd::prelude::*;

verus! {

/// A phoneme that the vocabulary holds has its token, between BOS and EOS; the stress marks and the
/// tie, and what the vocabulary does not hold, have none.
pub proof fn phoneme_has_its_token(mapper: VocabMapper, ipa: &str, c: char, tokens: Vec<i64>)
    requires
        call_ensures(VocabMapper::ipa_to_tokens, (&mapper, ipa), tokens),
        ipa@ == seq![c],
    ensures
        tokens@ == if c == '\u{2c8}' || c == '\u{2cc}' || c == '\u{361}'
            || !mapper.vocab@.contains_key(c as u32) {
            seq![mapper.bos_id, mapper.eos_id]
        } else {
            seq![mapper.bos_id, mapper.vocab@[c as u32], mapper.eos_id]
        },
{
    reveal(Seq::filter);
    let vocab = mapper.vocab();
    let phonemes = seq![c];
    let kept = |d: char| phonemizer::has_token(vocab, d);
    assert(phonemes.drop_last() =~= Seq::empty());
    assert(phonemes.drop_last().filter(kept) =~= Seq::empty());
    assert(phonemizer::phoneme_tokens(vocab, phonemes) =~= if kept(c) {
        seq![vocab[c]]
    } else {
        Seq::empty()
    });
}

/// No phonemes have BOS and EOS alone.
pub proof fn silence_is_framed(mapper: VocabMapper, ipa: &str, tokens: Vec<i64>)
    requires
        call_ensures(VocabMapper::ipa_to_tokens, (&mapper, ipa), tokens),
        ipa@.len() == 0,
    ensures
        tokens@ == seq![mapper.bos_id, mapper.eos_id],
{
    reveal(Seq::filter);
    assert(phonemizer::phoneme_tokens(mapper.vocab(), ipa@) =~= Seq::empty());
}

/// The tokens of phonemes behind one another are the tokens of the first, then those of the second,
/// up to 510 in all between BOS and EOS.
pub proof fn tokens_follow_the_phonemes(
    mapper: VocabMapper,
    head: &str,
    tail: &str,
    whole: &str,
    head_tokens: Vec<i64>,
    tail_tokens: Vec<i64>,
    tokens: Vec<i64>,
)
    requires
        call_ensures(VocabMapper::ipa_to_tokens, (&mapper, head), head_tokens),
        call_ensures(VocabMapper::ipa_to_tokens, (&mapper, tail), tail_tokens),
        call_ensures(VocabMapper::ipa_to_tokens, (&mapper, whole), tokens),
        whole@ == head@ + tail@,
    ensures
        tokens@.len() == if head_tokens@.len() + tail_tokens@.len() - 2 <= 512 {
            head_tokens@.len() + tail_tokens@.len() - 2
        } else {
            512
        },
        tokens@.first() == mapper.bos_id,
        tokens@.last() == mapper.eos_id,
        forall|i: int|
            1 <= i < tokens@.len() - 1 ==> #[trigger] tokens@[i] == if i < head_tokens@.len() - 1 {
                head_tokens@[i]
            } else {
                tail_tokens@[i - (head_tokens@.len() - 2)]
            },
{
    phonemizer::tokens_are_joined(mapper.vocab(), head@, tail@);
}

/// A mapper is made of a vocabulary exactly where `$` and `;` are in it; `$` is missed first.
pub proof fn vocabulary_needs_its_frame(
    entries: Vec<(String, i64)>,
    mapper: Result<VocabMapper, PhonemizerError>,
)
    requires
        call_ensures(VocabMapper::from_entries, (&entries,), mapper),
        json::distinct_names(entries@),
    ensures
        match mapper {
            Err(PhonemizerError::MissingBos) => forall|i: int|
                0 <= i < entries@.len() ==> (#[trigger] entries@[i]).0@ != seq!['$'],
            Err(PhonemizerError::MissingEos) => (exists|i: int|
                0 <= i < entries@.len() && (#[trigger] entries@[i]).0@ == seq!['$']) && forall|
                i: int,
            |
                0 <= i < entries@.len() ==> (#[trigger] entries@[i]).0@ != seq![';'],
            Err(_) => false,
            Ok(m) => {
                &&& exists|i: int|
                    0 <= i < entries@.len() && (#[trigger] entries@[i]).0@ == seq!['$'] && m.bos_id
                        == entries@[i].1
                &&& exists|i: int|
                    0 <= i < entries@.len() && (#[trigger] entries@[i]).0@ == seq![';'] && m.eos_id
                        == entries@[i].1
            },
        },
{
    let members = json::entry_map(entries@);
    if members.contains_key(seq!['$']) {
        let i = choose|i: int| json::is_entry(entries@, seq!['$'], i);
        json::entry_is_listed(entries@, i);
        assert(entries@[i].0@ == seq!['$']);
    } else {
        assert forall|i: int| 0 <= i < entries@.len() implies (#[trigger] entries@[i]).0@
            != seq!['$'] by {
            assert(!json::is_entry(entries@, seq!['$'], i));
        }
    }
    if members.contains_key(seq![';']) {
        let i = choose|i: int| json::is_entry(entries@, seq![';'], i);
        json::entry_is_listed(entries@, i);
        assert(entries@[i].0@ == seq![';']);
    } else {
        assert forall|i: int| 0 <= i < entries@.len() implies (#[trigger] entries@[i]).0@
            != seq![';'] by {
            assert(!json::is_entry(entries@, seq![';'], i));
        }
    }
}

/// Every member of a vocabulary that is named by one character gives that character its token.
pub proof fn members_give_their_tokens(
    entries: Vec<(String, i64)>,
    mapper: VocabMapper,
    i: int,
    c: char,
)
    requires
        call_ensures(VocabMapper::from_entries, (&entries,), Ok(mapper)),
        json::distinct_names(entries@),
        0 <= i < entries@.len(),
        entries@[i].0@ == seq![c],
    ensures
        mapper.vocab@.contains_key(c as u32),
        mapper.vocab@[c as u32] == entries@[i].1,
{
    json::entry_is_listed(entries@, i);
    assert(mapper.vocab().contains_key(c));
    assert(mapper.vocab()[c] == entries@[i].1);
}

/// No character has a token that a member of the vocabulary does not give it.
pub proof fn tokens_come_of_members(
    entries: Vec<(String, i64)>,
    mapper: VocabMapper,
    c: char,
) -> (i: int)
    requires
        call_ensures(VocabMapper::from_entries, (&entries,), Ok(mapper)),
        json::distinct_names(entries@),
        mapper.vocab@.contains_key(c as u32),
    ensures
        0 <= i < entries@.len(),
        entries@[i].0@ == seq![c],
        mapper.vocab@[c as u32] == entries@[i].1,
{
    assert(mapper.vocab().contains_key(c));
    let i = choose|i: int| json::is_entry(entries@, seq![c], i);
    assert(json::is_entry(entries@, seq![c], i));
    json::entry_is_listed(entries@, i);
    assert(mapper.vocab()[c] == entries@[i].1);
    i
}

/// A vocabulary file that could not be read, or is not an object of integers, gives no mapper. Else
/// each character that names a member has its token, and no other has one.
pub proof fn vocabulary_file_is_mapped(
    vocab_path: &str,
    read: Result<String, String>,
    mapper: Result<VocabMapper, PhonemizerError>,
)
    requires
        call_ensures(VocabMapper::load, (vocab_path, read), mapper),
    ensures
        match read {
            Err(reason) => mapper matches Err(PhonemizerError::VocabRead { path, source }) && path@
                == vocab_path@ && source@ == reason@,
            Ok(raw) => match json::vocab_json(raw@) {
                Err(message) => mapper matches Err(PhonemizerError::VocabParse(m)) && m@ == message,
                Ok(members) => match mapper {
                    Err(PhonemizerError::MissingBos) => !members.contains_key(seq!['$']),
                    Err(PhonemizerError::MissingEos) => members.contains_key(seq!['$'])
                        && !members.contains_key(seq![';']),
                    Err(_) => false,
                    Ok(m) => {
                        &&& members.contains_key(seq!['$']) && m.bos_id == members[seq!['$']]
                        &&& members.contains_key(seq![';']) && m.eos_id == members[seq![';']]
                        &&& forall|c: char|
                            m.vocab@.contains_key(c as u32) == #[trigger] members.contains_key(
                                seq![c],
                            ) && (members.contains_key(seq![c]) ==> m.vocab@[c as u32]
                                == members[seq![c]])
                    },
                },
            },
        },
{
    if let (Ok(raw), Ok(m)) = (read, mapper) {
        if let Ok(members) = json::vocab_json(raw@) {
            members_are_mapped(m, members);
        }
    }
}

/// A phonemizer has the backend that it is given and the mapper of its vocabulary file; where there is
/// no mapper, the reason stands.
pub proof fn phonemizer_has_its_parts<B: PhonemizerBackend>(
    vocab_path: &str,
    read: Result<String, String>,
    backend: B,
    loaded: Result<Phonemizer<B>, PhonemizerError>,
)
    requires
        call_ensures(Phonemizer::<B>::load, (vocab_path, read, backend), loaded),
    ensures
        loaded matches Ok(p) ==> p.backend == backend,
        match read {
            Err(reason) => loaded matches Err(PhonemizerError::VocabRead { path, source }) && path@
                == vocab_path@ && source@ == reason@,
            Ok(raw) => match json::vocab_json(raw@) {
                Err(message) => loaded matches Err(PhonemizerError::VocabParse(m)) && m@ == message,
                Ok(members) => match loaded {
                    Err(PhonemizerError::MissingBos) => !members.contains_key(seq!['$']),
                    Err(PhonemizerError::MissingEos) => members.contains_key(seq!['$'])
                        && !members.contains_key(seq![';']),
                    Err(_) => false,
                    Ok(p) => {
                        &&& members.contains_key(seq!['$']) && p.mapper.bos_id == members[seq!['$']]
                        &&& members.contains_key(seq![';']) && p.mapper.eos_id == members[seq![';']]
                        &&& forall|c: char|
                            p.mapper.vocab@.contains_key(c as u32)
                                == #[trigger] members.contains_key(seq![c]) && (
                            members.contains_key(seq![c]) ==> p.mapper.vocab@[c as u32]
                                == members[seq![c]])
                    },
                },
            },
        },
{
    if let (Ok(raw), Ok(p)) = (read, loaded) {
        if let Ok(members) = json::vocab_json(raw@) {
            members_are_mapped(p.mapper, members);
        }
    }
}

proof fn members_are_mapped(mapper: VocabMapper, members: Map<Seq<char>, i64>)
    requires
        mapper.vocab() == phonemizer::char_vocab(members),
    ensures
        forall|c: char|
            mapper.vocab@.contains_key(c as u32) == #[trigger] members.contains_key(seq![c]) && (
            members.contains_key(seq![c]) ==> mapper.vocab@[c as u32] == members[seq![c]]),
{
    let vocab = phonemizer::char_vocab(members);
    assert forall|c: char|
        mapper.vocab@.contains_key(c as u32) == #[trigger] members.contains_key(seq![c]) && (
        members.contains_key(seq![c]) ==> mapper.vocab@[c as u32] == members[seq![c]]) by {
        assert(mapper.vocab().contains_key(c) == vocab.contains_key(c));
        assert(vocab.contains_key(c) ==> mapper.vocab()[c] == vocab[c]);
    }
}

/// The names of backends are `espeak` and `misaki`; no other text names one.
pub proof fn backends_have_two_names(s: &str, kind: Result<PhonemizerKind, PhonemizerError>)
    requires
        call_ensures(PhonemizerKind::from_str, (s,), kind),
    ensures
        kind == Ok::<PhonemizerKind, PhonemizerError>(PhonemizerKind::Espeak) <==> s@ == "espeak"@,
        kind == Ok::<PhonemizerKind, PhonemizerError>(PhonemizerKind::Misaki) <==> s@ == "misaki"@,
        kind is Err ==> (kind matches Err(PhonemizerError::UnknownBackend(name)) && name@ == s@),
{
    reveal_strlit("espeak");
    reveal_strlit("misaki");
    assert("espeak"@[0] != "misaki"@[0]);
}

/// The setting picks the backend: the caller's where it is `espeak` or there is none, `misaki-rs` where
/// it is `misaki`. Any other setting is refused, whatever the vocabulary.
pub proof fn setting_picks_the_backend<E: PhonemizerBackend>(
    variable: Option<&str>,
    espeak: E,
    vocab_path: &str,
    read: Result<String, String>,
    loaded: Result<Phonemizer<SelectedBackend<E>>, PhonemizerError>,
)
    requires
        call_ensures(
            Phonemizer::<SelectedBackend<E>>::load_from_env,
            (variable, espeak, vocab_path, read),
            loaded,
        ),
    ensures
        match variable {
            None => loaded matches Ok(p) ==> p.backend == SelectedBackend::Espeak(espeak),
            Some(v) => {
                &&& v@ == "espeak"@ ==> (loaded matches Ok(p) ==> p.backend
                    == SelectedBackend::Espeak(espeak))
                &&& v@ == "misaki"@ ==> (loaded matches Ok(p) ==> p.backend
                    == SelectedBackend::<E>::Misaki(MisakiBackend))
                &&& v@ != "espeak"@ && v@ != "misaki"@ ==> (loaded matches Err(
                    PhonemizerError::UnknownBackend(name),
                ) && name@ == v@)
            },
        },
        (variable is None || variable->Some_0@ == "espeak"@ || variable->Some_0@ == "misaki"@)
            ==> match read {
            Err(reason) => loaded matches Err(PhonemizerError::VocabRead { path, source }) && path@
                == vocab_path@ && source@ == reason@,
            Ok(raw) => match json::vocab_json(raw@) {
                Err(message) => loaded matches Err(PhonemizerError::VocabParse(m)) && m@ == message,
                Ok(members) => match loaded {
                    Err(PhonemizerError::MissingBos) => !members.contains_key(seq!['$']),
                    Err(PhonemizerError::MissingEos) => members.contains_key(seq!['$'])
                        && !members.contains_key(seq![';']),
                    Err(_) => false,
                    Ok(p) => {
                        &&& members.contains_key(seq!['$']) && p.mapper.bos_id == members[seq!['$']]
                        &&& members.contains_key(seq![';']) && p.mapper.eos_id == members[seq![';']]
                        &&& forall|c: char|
                            p.mapper.vocab@.contains_key(c as u32)
                                == #[trigger] members.contains_key(seq![c]) && (
                            members.contains_key(seq![c]) ==> p.mapper.vocab@[c as u32]
                                == members[seq![c]])
                    },
                },
            },
        },
{
    if let (Ok(raw), Ok(p)) = (read, loaded) {
        if let Ok(members) = json::vocab_json(raw@) {
            if p.mapper.vocab() == phonemizer::char_vocab(members) {
                members_are_mapped(p.mapper, members);
            }
        }
    }
    reveal_strlit("espeak");
    reveal_strlit("misaki");
    assert("espeak"@[0] != "misaki"@[0]);
}

/// The tokens of what a backend came back with are those of its phonemes; where it failed, its error
/// stands.
pub proof fn phonemes_are_tokenized<B: PhonemizerBackend>(
    phonemizer: Phonemizer<B>,
    ipa: Result<String, PhonemizerError>,
    tokens: Result<Vec<i64>, PhonemizerError>,
    phonemes: &str,
    mapped: Vec<i64>,
)
    requires
        call_ensures(Phonemizer::<B>::tokens_of, (&phonemizer, ipa), tokens),
        ipa matches Ok(s) ==> phonemes@ == s@,
        call_ensures(VocabMapper::ipa_to_tokens, (&phonemizer.mapper, phonemes), mapped),
    ensures
        match ipa {
            Ok(_) => tokens matches Ok(ids) && ids@ == mapped@,
            Err(e) => tokens == Err::<Vec<i64>, PhonemizerError>(e),
        },
{
}

/// A text has the tokens of the phonemes that its backend came back with for that text.
pub proof fn text_is_phonemized<B: PhonemizerBackend>(
    phonemizer: Phonemizer<B>,
    text: &str,
    tokens: Result<Vec<i64>, PhonemizerError>,
) -> (ipa: Result<String, PhonemizerError>)
    requires
        call_ensures(Phonemizer::<B>::phonemize, (&phonemizer, text), tokens),
    ensures
        phonemizer.backend.may_return(text@, ipa),
        match ipa {
            Err(e) => tokens == Err::<Vec<i64>, PhonemizerError>(e),
            Ok(s) => tokens is Ok && forall|phonemes: &str, mapped: Vec<i64>|
                phonemes@ == s@ && #[trigger] call_ensures(
                    VocabMapper::ipa_to_tokens,
                    (&phonemizer.mapper, phonemes),
                    mapped,
                ) ==> tokens->Ok_0@ == mapped@,
        },
{
    choose|ipa: Result<String, PhonemizerError>| #[trigger]
        phonemizer.backend.may_return(text@, ipa) && phonemizer.tokenizes(ipa, tokens)
}

/// The backends come back with what `misaki-rs`, or the caller's backend, has for the very text.
pub proof fn backends_are_asked<E: PhonemizerBackend>(
    espeak: E,
    text: Seq<char>,
    ipa: Result<String, PhonemizerError>,
)
    ensures
        MisakiBackend.may_return(text, ipa) <==> match misaki::misaki_ipa(text) {
            Ok(phonemes) => ipa is Ok && ipa->Ok_0@ == phonemes,
            Err(message) => ipa matches Err(PhonemizerError::MisakiError(m)) && m@ == message,
        },
        SelectedBackend::<E>::Misaki(MisakiBackend).may_return(text, ipa)
            <==> MisakiBackend.may_return(text, ipa),
        SelectedBackend::Espeak(espeak).may_return(text, ipa) <==> espeak.may_return(text, ipa),
        SelectedBackend::Espeak(espeak).accepts(text) <==> espeak.accepts(text),
        MisakiBackend.accepts(text) <==> misaki::is_readable(text),
        SelectedBackend::<E>::Misaki(MisakiBackend).accepts(text) <==> MisakiBackend.accepts(text),
{
}

/// `misaki-rs` is asked for the very text, and its phonemes or its error stand as they are.
pub proof fn misaki_is_asked(
    text: &str,
    ipa: Result<String, PhonemizerError>,
    name: &'static str,
)
    requires
        call_ensures(<MisakiBackend as PhonemizerBackend>::text_to_ipa, (&MisakiBackend, text), ipa),
        call_ensures(<MisakiBackend as PhonemizerBackend>::name, (&MisakiBackend,), name),
    ensures
        name@ == "misaki"@,
        match misaki::misaki_ipa(text@) {
            Ok(phonemes) => ipa is Ok && ipa->Ok_0@ == phonemes,
            Err(message) => ipa matches Err(PhonemizerError::MisakiError(m)) && m@ == message,
        },
{
}

/// The backend that was picked is asked, and has its own name.
pub proof fn picked_backend_is_asked<E: PhonemizerBackend>(
    backend: SelectedBackend<E>,
    text: &str,
    ipa: Result<String, PhonemizerError>,
    name: &'static str,
)
    requires
        call_ensures(
            <SelectedBackend<E> as PhonemizerBackend>::text_to_ipa,
            (&backend, text),
            ipa,
        ),
        call_ensures(<SelectedBackend<E> as PhonemizerBackend>::name, (&backend,), name),
    ensures
        match backend {
            SelectedBackend::Espeak(espeak) => espeak.may_return(text@, ipa) && call_ensures(
                <E as PhonemizerBackend>::name,
                (&espeak,),
                name,
            ),
            SelectedBackend::Misaki(_) => name@ == "misaki"@ && match misaki::misaki_ipa(text@) {
                Ok(phonemes) => ipa is Ok && ipa->Ok_0@ == phonemes,
                Err(message) => ipa matches Err(PhonemizerError::MisakiError(m)) && m@ == message,
            },
        },
{
}

/// `libespeak-ng` is run with its American voice. Its phonemes stand as they are, and none are an
/// empty text; each failure has its own error.
pub proof fn espeak_runs_are_settled(
    run: EspeakRun,
    ipa: Result<String, PhonemizerError>,
    voice: &'static str,
    name: &'static str,
)
    requires
        call_ensures(EspeakBackend::settle, (&EspeakBackend, run), ipa),
        call_ensures(EspeakBackend::voice, (&EspeakBackend,), voice),
        call_ensures(EspeakBackend::name, (&EspeakBackend,), name),
    ensures
        voice@ == "gmw/en-US"@,
        name@ == "espeak"@,
        match run {
            EspeakRun::Phonemes(Some(phonemes)) => ipa matches Ok(s) && s@ == phonemes@,
            EspeakRun::Phonemes(None) => ipa matches Ok(s) && s@.len() == 0,
            EspeakRun::NotInitialised(reason) => ipa matches Err(PhonemizerError::EspeakInit(m))
                && m@ == reason@,
            EspeakRun::NoVoice(reason) => ipa matches Err(PhonemizerError::EspeakFailed(m)) && m@
                == "set voice: "@ + reason@,
            EspeakRun::Failed(reason) => ipa matches Err(PhonemizerError::EspeakFailed(m)) && m@
                == "phonemize: "@ + reason@,
        },
{
}

proof fn text_without_markers(text: Seq<char>, p: int)
    requires
        0 <= p <= text.len(),
        forall|i: int| 0 <= i < text.len() ==> #[trigger] text[i] != '[',
    ensures
        misaki::unmarked(text, p) == text.skip(p),
    decreases text.len() - p,
{
    if p < text.len() {
        text_without_markers(text, p + 1);
    }
    assert(misaki::unmarked(text, p) =~= text.skip(p));
}

/// A text below 499900 characters is readable unless it is a marker or holds one, or a word in `ing`,
/// in any case, behind a character outside ASCII or behind such a character and an apostrophe. Curly
/// apostrophes and the trade mark sign are as good as ASCII.
pub proof fn most_texts_are_readable(text: &str, yes: bool)
    requires
        call_ensures(readable, (text,), yes),
        text@.len() < 499_900,
        forall|i: int| 0 <= i < text@.len() ==> #[trigger] text@[i] != '[',
        forall|k: int|
            1 <= k <= text@.len() - 3 && (text@[k] == 'i' || #[trigger] text@[k] == 'I') && (text@[k
                + 1] == 'n' || text@[k + 1] == 'N') && (text@[k + 2] == 'g' || text@[k + 2] == 'G')
                ==> {
                let c = text@[k - 1];
                let d = if k >= 2 && (c == '\'' || c == '\u{2018}' || c == '\u{2019}') {
                    text@[k - 2]
                } else {
                    c
                };
                &&& c <= '\u{7f}' || c == '\u{2018}' || c == '\u{2019}' || c == '\u{2122}'
                &&& d <= '\u{7f}' || d == '\u{2018}' || d == '\u{2019}' || d == '\u{2122}'
            },
    ensures
        yes,
{
    text_without_markers(text@, 0);
    assert(text@.skip(0) =~= text@);
}

/// Every ASCII text below 499900 characters is readable.
pub proof fn ascii_texts_are_readable(text: &str, yes: bool)
    requires
        call_ensures(readable, (text,), yes),
        text@.len() < 499_900,
        forall|i: int| 0 <= i < text@.len() ==> #[trigger] text@[i] <= '\u{7f}',
    ensures
        yes,
{
    misaki::ascii_is_readable(text@);
}

/// Behind a dash or a quotation mark, capitals are readable.
pub proof fn capitals_behind_signs_are_readable(text: &str, sign: char, yes: bool)
    requires
        call_ensures(readable, (text,), yes),
        text@ == seq![sign, 'I', 'N', 'G'],
        '\u{2000}' <= sign <= '\u{206f}',
    ensures
        yes,
{
    text_without_markers(text@, 0);
    assert(text@.skip(0) =~= text@);
}

/// A word that ends in `ing` behind a character outside ASCII, other than a curly apostrophe and the
/// trade mark sign, is not readable.
pub proof fn cut_words_are_not_readable(text: &str, k: int, yes: bool)
    requires
        call_ensures(readable, (text,), yes),
        forall|i: int| 0 <= i < text@.len() ==> #[trigger] text@[i] != '[',
        1 <= k <= text@.len() - 3,
        text@[k] == 'i' && text@[k + 1] == 'n' && text@[k + 2] == 'g',
        k + 3 == text@.len() || text@[k + 3] < 'a' || text@[k + 3] > 'z',
        text@[k - 1] > '\u{7f}',
        text@[k - 1] != '\u{2018}' && text@[k - 1] != '\u{2019}' && text@[k - 1] != '\u{2122}',
    ensures
        !yes,
{
    text_without_markers(text@, 0);
    assert(text@.skip(0) =~= text@);
    assert(misaki::is_cut(text@, k));
}

/// A run of 499900 characters without white space is not readable.
pub proof fn long_runs_are_not_readable(text: &str, from: int, yes: bool)
    requires
        call_ensures(readable, (text,), yes),
        forall|i: int| 0 <= i < text@.len() ==> #[trigger] text@[i] != '[',
        0 <= from && from + 499_900 <= text@.len(),
        forall|i: int|
            from <= i < from + 499_900 ==> #[trigger] text@[i] != ' ' && text@[i] != '\t' && text@[i]
                != '\n' && text@[i] != '\u{c}' && text@[i] != '\r',
    ensures
        !yes,
{
    text_without_markers(text@, 0);
    assert(text@.skip(0) =~= text@);
    assert(!misaki::run_ends(text@, from));
}

proof fn next_is_found(text: Seq<char>, from: int, at: int, c: char)
    requires
        0 <= from <= at < text.len(),
        text[at] == c,
        forall|i: int| from <= i < at ==> #[trigger] text[i] != c,
    ensures
        misaki::next_at(text, from, c) == at,
    decreases at - from,
{
    if from < at {
        next_is_found(text, from + 1, at, c);
    }
}

/// A marker `[words](feature)` is as readable as its words.
pub proof fn markers_are_read_as_their_words(
    marker: &str,
    words: &str,
    feature: Seq<char>,
    marker_yes: bool,
    words_yes: bool,
)
    requires
        call_ensures(readable, (marker,), marker_yes),
        call_ensures(readable, (words,), words_yes),
        marker@ == seq!['['] + words@ + seq![']', '('] + feature + seq![')'],
        words@.len() > 0,
        forall|i: int| 0 <= i < words@.len() ==> #[trigger] words@[i] != '[' && words@[i] != ']',
        forall|i: int| 0 <= i < feature.len() ==> #[trigger] feature[i] != ')',
    ensures
        marker_yes == words_yes,
{
    let text = marker@;
    let n = words@.len() as int;
    let end = n + 3 + feature.len();
    assert(text.len() == end + 1);
    assert forall|i: int| 1 <= i < n + 1 implies #[trigger] text[i] != ']' by {
        assert(text[i] == words@[i - 1]);
    }
    next_is_found(text, 1, n + 1, ']');
    assert forall|i: int| n + 3 <= i < end implies #[trigger] text[i] != ')' by {
        assert(text[i] == feature[i - n - 3]);
    }
    next_is_found(text, n + 3, end, ')');
    assert(misaki::is_marker(text, 0));
    assert(text.subrange(1, n + 1) =~= words@);
    assert(misaki::unmarked(text, end + 1) =~= Seq::empty());
    assert(misaki::unmarked(text, 0) =~= words@);
    text_without_markers(words@, 0);
    assert(words@.skip(0) =~= words@);
}

/// Texts on either side of a space are readable together where both are.
pub proof fn spaces_part_texts(
    head: &str,
    tail: &str,
    whole: &str,
    head_yes: bool,
    tail_yes: bool,
    yes: bool,
)
    requires
        call_ensures(readable, (head,), head_yes),
        call_ensures(readable, (tail,), tail_yes),
        call_ensures(readable, (whole,), yes),
        whole@ == head@ + seq![' '] + tail@,
        forall|i: int| 0 <= i < whole@.len() ==> #[trigger] whole@[i] != '[',
    ensures
        yes <==> head_yes && tail_yes,
{
    let n = head@.len() as int;
    let t = whole@;
    assert forall|i: int| 0 <= i < n implies #[trigger] head@[i] != '[' by {
        assert(t[i] == head@[i]);
    }
    assert forall|i: int| 0 <= i < tail@.len() implies #[trigger] tail@[i] != '[' by {
        assert(t[n + 1 + i] == tail@[i]);
    }
    text_without_markers(head@, 0);
    text_without_markers(tail@, 0);
    text_without_markers(t, 0);
    assert(head@.skip(0) =~= head@);
    assert(tail@.skip(0) =~= tail@);
    assert(t.skip(0) =~= t);
    assert(t[n] == ' ');
    assert forall|k: int| 0 <= k < n implies misaki::is_cut(t, k) == #[trigger] misaki::is_cut(
        head@,
        k,
    ) by {
        assert forall|i: int| 0 <= i < n implies #[trigger] t[i] == head@[i] by {}
    }
    assert forall|k: int| 0 <= k < tail@.len() implies #[trigger] misaki::is_cut(tail@, k)
        == misaki::is_cut(t, n + 1 + k) by {
        assert forall|i: int| 0 <= i < tail@.len() implies t[n + 1 + i] == #[trigger] tail@[i] by {}
    }
    assert(!misaki::is_cut(t, n));
    runs_are_parted(head@, tail@);
    if head_yes && tail_yes {
        assert forall|k: int| 0 <= k < t.len() implies !#[trigger] misaki::is_cut(t, k) by {
            if k < n {
                assert(!misaki::is_cut(head@, k));
            } else if k > n {
                assert(!misaki::is_cut(tail@, k - n - 1));
            }
        }
    }
}

proof fn runs_are_parted(head: Seq<char>, tail: Seq<char>)
    ensures
        misaki::has_short_runs(head + seq![' '] + tail) <==> misaki::has_short_runs(head)
            && misaki::has_short_runs(tail),
{
    let t = head + seq![' '] + tail;
    let n = head.len() as int;
    let limit = misaki::RUN_LIMIT as int;
    assert(t[n] == ' ');
    if misaki::has_short_runs(head) && misaki::has_short_runs(tail) {
        assert forall|i: int| 0 <= i && i + limit <= t.len() implies #[trigger] misaki::run_ends(
            t,
            i,
        ) by {
            if i + limit <= n {
                assert(misaki::run_ends(head, i));
                let j = choose|j: int| i <= j < i + limit && misaki::is_break(#[trigger] head[j]);
                assert(misaki::is_break(t[j]));
            } else if i <= n {
                assert(misaki::is_break(t[n]));
            } else {
                assert(misaki::run_ends(tail, i - n - 1));
                let j = choose|j: int|
                    i - n - 1 <= j < i - n - 1 + limit && misaki::is_break(#[trigger] tail[j]);
                assert(t[j + n + 1] == tail[j]);
                assert(misaki::is_break(t[j + n + 1]));
            }
        }
    }
    if misaki::has_short_runs(t) {
        assert forall|i: int| 0 <= i && i + limit <= n implies #[trigger] misaki::run_ends(
            head,
            i,
        ) by {
            assert(misaki::run_ends(t, i));
            let j = choose|j: int| i <= j < i + limit && misaki::is_break(#[trigger] t[j]);
            assert(head[j] == t[j]);
            assert(misaki::is_break(head[j]));
        }
        assert forall|i: int| 0 <= i && i + limit <= tail.len() implies #[trigger] misaki::run_ends(
            tail,
            i,
        ) by {
            assert(misaki::run_ends(t, i + n + 1));
            let j = choose|j: int|
                i + n + 1 <= j < i + n + 1 + limit && misaki::is_break(#[trigger] t[j]);
            assert(tail[j - n - 1] == t[j]);
            assert(misaki::is_break(tail[j - n - 1]));
        }
    }
}

/// Behind a letter and an apostrophe `ing` is readable, as in an accented Latin word; behind a sign and
/// an apostrophe it is not.
pub proof fn apostrophes_follow_letters(text: &str, c: char, yes: bool)
    requires
        call_ensures(readable, (text,), yes),
        text@ == seq![c, '\'', 'i', 'n', 'g'],
    ensures
        '\u{c0}' <= c <= '\u{2af}' && c != '\u{d7}' && c != '\u{f7}' ==> yes,
        '\u{80}' <= c <= '\u{bf}' ==> !yes,
        '\u{3001}' <= c <= '\u{3020}' ==> !yes,
{
    if c != '[' {
        text_without_markers(text@, 0);
        assert(text@.skip(0) =~= text@);
        if misaki::is_cut(text@, 2) {
            assert(misaki::is_ing(text@, 2));
        }
    }
}

} // verus!
