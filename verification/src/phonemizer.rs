//! Text to phoneme tokens.
use crate::error::{prefixed, PhonemizerError};
use crate::json;
use crate::misaki;
use crate::text;
use std::collections::HashMap;
use vstd::prelude::*;

verus! {

/// Converts text to an IPA phoneme string.
pub trait PhonemizerBackend: Send + Sync {
    /// The texts that the backend takes: every text, unless it says otherwise.
    open spec fn accepts(&self, text: Seq<char>) -> bool {
        true
    }

    /// The outcomes that the backend may come back with: any, unless it says otherwise.
    open spec fn may_return(&self, text: Seq<char>, ipa: Result<String, PhonemizerError>) -> bool {
        true
    }

    fn name(&self) -> &'static str;

    fn text_to_ipa(&self, text: &str) -> (ipa: Result<String, PhonemizerError>)
        requires
            self.accepts(text@),
        ensures
            self.may_return(text@, ipa),
    ;
}

/// The most phoneme tokens that are fed to the model, which leaves room for BOS and EOS.
pub const MAX_TOKENS: usize = 510;

/// The stress and tie marks that the vocabulary does not hold.
pub open spec fn is_mark(c: char) -> bool {
    c == '\u{2c8}' || c == '\u{2cc}' || c == '\u{361}'
}

/// A phoneme that has a token.
pub open spec fn has_token(vocab: Map<char, i64>, c: char) -> bool {
    !is_mark(c) && vocab.contains_key(c)
}

/// The tokens of the phonemes that have one, in order.
pub open spec fn phoneme_tokens(vocab: Map<char, i64>, ipa: Seq<char>) -> Seq<i64> {
    ipa.filter(|c: char| has_token(vocab, c)).map_values(|c: char| vocab[c])
}

/// At most the first `n` tokens.
pub open spec fn at_most(tokens: Seq<i64>, n: nat) -> Seq<i64> {
    if tokens.len() <= n {
        tokens
    } else {
        tokens.take(n as int)
    }
}

/// The token sequence of an IPA string: BOS, at most [`MAX_TOKENS`] phoneme tokens, EOS.
pub open spec fn token_ids(vocab: Map<char, i64>, bos: i64, eos: i64, ipa: Seq<char>) -> Seq<i64> {
    seq![bos] + at_most(phoneme_tokens(vocab, ipa), MAX_TOKENS as nat) + seq![eos]
}

/// The vocabulary of the members that are named by one character.
pub open spec fn char_vocab(members: Map<Seq<char>, i64>) -> Map<char, i64> {
    Map::new(|c: char| members.contains_key(seq![c]), |c: char| members[seq![c]])
}

/// The outcome of making a mapper of a vocabulary: it must hold BOS, then EOS.
pub open spec fn maps_members(
    mapper: Result<VocabMapper, PhonemizerError>,
    members: Map<Seq<char>, i64>,
) -> bool {
    let vocab = char_vocab(members);
    if !vocab.contains_key('$') {
        mapper matches Err(PhonemizerError::MissingBos)
    } else if !vocab.contains_key(';') {
        mapper matches Err(PhonemizerError::MissingEos)
    } else {
        mapper matches Ok(m) && m.vocab() == vocab && m.wf()
    }
}

/// The outcome of making a mapper of a vocabulary file.
pub open spec fn maps_vocab_file(
    mapper: Result<VocabMapper, PhonemizerError>,
    vocab_path: Seq<char>,
    read: Result<String, String>,
) -> bool {
    match read {
        Err(source) => mapper matches Err(PhonemizerError::VocabRead { path, source: s })
            && path@ == vocab_path && s@ == source@,
        Ok(raw) => match json::vocab_json(raw@) {
            Err(message) => mapper matches Err(PhonemizerError::VocabParse(m)) && m@ == message,
            Ok(members) => maps_members(mapper, members),
        },
    }
}

/// Maps IPA strings to token sequences.
#[derive(Debug)]
pub struct VocabMapper {
    /// The token of each phoneme, by the phoneme's code point.
    pub vocab: HashMap<u32, i64>,
    pub bos_id: i64,
    pub eos_id: i64,
}

/// A vocabulary that is keyed by code points.
pub open spec fn code_vocab(codes: Map<u32, i64>) -> Map<char, i64> {
    Map::new(|c: char| codes.contains_key(c as u32), |c: char| codes[c as u32])
}

impl VocabMapper {
    /// The token of each phoneme.
    pub open spec fn vocab(&self) -> Map<char, i64> {
        code_vocab(self.vocab@)
    }

    /// BOS is the token of `$` and EOS the token of `;`.
    pub open spec fn wf(&self) -> bool {
        &&& self.vocab().contains_key('$')
        &&& self.bos_id == self.vocab()['$']
        &&& self.vocab().contains_key(';')
        &&& self.eos_id == self.vocab()[';']
    }

    /// The mapper of a vocabulary that lists its members. Members that are named by more than
    /// one character, or by none, are left out.
    pub fn from_entries(entries: &Vec<(String, i64)>) -> (mapper: Result<
        VocabMapper,
        PhonemizerError,
    >)
        requires
            json::distinct_names(entries@),
        ensures
            maps_members(mapper, json::entry_map(entries@)),
    {
        broadcast use vstd::std_specs::hash::group_hash_axioms;

        let mut vocab: HashMap<u32, i64> = HashMap::new();
        let mut i: usize = 0;
        while i < entries.len()
            invariant
                i <= entries.len(),
                json::distinct_names(entries@),
                forall|c: char|
                    #[trigger] code_vocab(vocab@).contains_key(c) <==> exists|j: int|
                        0 <= j < i && (#[trigger] entries@[j]).0@ == seq![c],
                forall|c: char, j: int|
                    0 <= j < i && (#[trigger] entries@[j]).0@ == seq![c] ==> #[trigger] code_vocab(vocab@)[c]
                        == entries@[j].1,
            decreases entries.len() - i,
        {
            let name = text::chars_of(entries[i].0.as_str());
            let ghost before = vocab@;
            if name.len() == 1 {
                let c = name[0];
                vocab.insert(c as u32, entries[i].1);
                assert(name@ =~= seq![c]);
                assert forall|d: char| d != c implies #[trigger] code_vocab(vocab@).contains_key(d)
                    == code_vocab(before).contains_key(d) && (code_vocab(before).contains_key(d)
                    ==> code_vocab(vocab@)[d] == code_vocab(before)[d]) by {
                    text::code_points_differ(c, d);
                }
                assert forall|d: char|
                    #[trigger] code_vocab(vocab@).contains_key(d) <==> exists|j: int|
                        0 <= j < i + 1 && (#[trigger] entries@[j]).0@ == seq![d] by {
                    if d == c {
                        assert(entries@[i as int].0@ == seq![d]);
                    } else {
                        assert(seq![c][0] != seq![d][0]);
                    }
                }
                assert forall|d: char, j: int|
                    0 <= j < i + 1 && (#[trigger] entries@[j]).0@ == seq![d] implies #[trigger] code_vocab(vocab@)[d]
                        == entries@[j].1 by {
                    if d != c {
                        assert(seq![c][0] != seq![d][0]);
                        assert(code_vocab(before).contains_key(d));
                        assert(code_vocab(before)[d] == entries@[j].1);
                        assert(code_vocab(vocab@).contains_key(d));
                    } else if j < i {
                        assert(entries@[j].0@ == entries@[i as int].0@);
                    }
                }
            } else {
                assert forall|d: char| entries@[i as int].0@ != seq![d] by {
                    assert(seq![d].len() == 1);
                }
            }
            i += 1;
        }
        proof {
            let members = json::entry_map(entries@);
            let all = char_vocab(members);
            assert forall|c: char| code_vocab(vocab@).contains_key(c) == all.contains_key(c) by {
                if all.contains_key(c) {
                    let j = choose|j: int| json::is_entry(entries@, seq![c], j);
                    assert(entries@[j].0@ == seq![c]);
                }
                if code_vocab(vocab@).contains_key(c) {
                    let j = choose|j: int|
                        0 <= j < entries@.len() && (#[trigger] entries@[j]).0@ == seq![c];
                    assert(json::is_entry(entries@, seq![c], j));
                }
            }
            assert forall|c: char| all.contains_key(c) implies code_vocab(vocab@)[c] == all[c] by {
                let j = choose|j: int| json::is_entry(entries@, seq![c], j);
                json::entry_is_listed(entries@, j);
            }
            assert(code_vocab(vocab@) =~= all);
        }
        let bos_id: i64 = match vocab.get(&('$' as u32)) {
            Some(id) => *id,
            None => {
                assert(!code_vocab(vocab@).contains_key('$'));
                return Err(PhonemizerError::MissingBos);
            },
        };
        let eos_id: i64 = match vocab.get(&(';' as u32)) {
            Some(id) => *id,
            None => {
                assert(!code_vocab(vocab@).contains_key(';'));
                return Err(PhonemizerError::MissingEos);
            },
        };
        Ok(VocabMapper { vocab, bos_id, eos_id })
    }

    /// Loads the mapper from what reading the vocabulary file at `vocab_path` gave.
    pub fn load(vocab_path: &str, read: Result<String, String>) -> (mapper: Result<
        VocabMapper,
        PhonemizerError,
    >)
        ensures
            maps_vocab_file(mapper, vocab_path@, read),
    {
        match read {
            Err(source) => Err(PhonemizerError::VocabRead { path: vocab_path.to_owned(), source }),
            Ok(raw) => match json::parse_vocab(raw.as_str()) {
                Err(message) => Err(PhonemizerError::VocabParse(message)),
                Ok(entries) => Self::from_entries(&entries),
            },
        }
    }

    /// The token sequence of an IPA string.
    pub fn ipa_to_tokens(&self, ipa: &str) -> (tokens: Vec<i64>)
        ensures
            tokens@ == token_ids(self.vocab(), self.bos_id, self.eos_id, ipa@),
    {
        broadcast use vstd::std_specs::hash::group_hash_axioms;

        let chars = text::chars_of(ipa);
        let mut tokens: Vec<i64> = Vec::new();
        tokens.push(self.bos_id);
        let mut i: usize = 0;
        let ghost vocab = self.vocab();
        let ghost bos = seq![self.bos_id];
        assert(phoneme_tokens(vocab, ipa@.take(0)) =~= Seq::empty()) by {
            reveal(Seq::filter);
        }
        while i < chars.len()
            invariant
                i <= chars.len(),
                chars@ == ipa@,
                vocab == self.vocab(),
                bos == seq![self.bos_id],
                tokens@ == bos + at_most(phoneme_tokens(vocab, ipa@.take(i as int)), 510),
            decreases chars.len() - i,
        {
            let c = chars[i];
            let ghost upto = ipa@.take(i + 1);
            proof {
                reveal(Seq::filter);
                assert(upto.drop_last() =~= ipa@.take(i as int));
                assert(upto.last() == c);
                let before = phoneme_tokens(vocab, ipa@.take(i as int));
                let after = phoneme_tokens(vocab, upto);
                if has_token(vocab, c) {
                    assert(after =~= before.push(vocab[c]));
                } else {
                    assert(after =~= before);
                }
            }
            let marked: bool = c == '\u{2c8}' || c == '\u{2cc}' || c == '\u{361}';
            if !marked && tokens.len() <= MAX_TOKENS {
                match self.vocab.get(&(c as u32)) {
                    Some(token) => {
                        tokens.push(*token);
                    },
                    None => {},
                }
            }
            assert(tokens@ =~= bos + at_most(phoneme_tokens(vocab, upto), 510));
            i += 1;
        }
        assert(ipa@.take(ipa@.len() as int) =~= ipa@);
        tokens.push(self.eos_id);
        assert(tokens@ =~= token_ids(vocab, self.bos_id, self.eos_id, ipa@));
        tokens
    }
}

/// Phonemizes in pure Rust with the `misaki-rs` crate.
#[derive(Debug)]
pub struct MisakiBackend;

impl PhonemizerBackend for MisakiBackend {
    open spec fn accepts(&self, text: Seq<char>) -> bool {
        misaki::is_readable(text)
    }

    open spec fn may_return(
        &self,
        text: Seq<char>,
        ipa: Result<String, PhonemizerError>,
    ) -> bool {
        match misaki::misaki_ipa(text) {
            Ok(phonemes) => ipa matches Ok(s) && s@ == phonemes,
            Err(message) => ipa matches Err(PhonemizerError::MisakiError(m)) && m@ == message,
        }
    }

    fn name(&self) -> (name: &'static str)
        ensures
            name@ == "misaki"@,
    {
        "misaki"
    }

    fn text_to_ipa(&self, text: &str) -> (ipa: Result<String, PhonemizerError>) {
        match misaki::misaki_g2p(text) {
            Ok(phonemes) => Ok(phonemes),
            Err(message) => Err(PhonemizerError::MisakiError(message)),
        }
    }
}

/// How far a run of `libespeak-ng` came.
#[derive(Debug)]
pub enum EspeakRun {
    /// The library could not be initialised.
    NotInitialised(String),
    /// The voice could not be set.
    NoVoice(String),
    /// The text could not be phonemized.
    Failed(String),
    /// The phonemes, where there are any.
    Phonemes(Option<String>),
}

/// Phonemizes with `libespeak-ng`. The caller runs the library with [`EspeakBackend::voice`] and
/// hands the outcome to [`EspeakBackend::settle`].
#[derive(Debug)]
pub struct EspeakBackend;

impl EspeakBackend {
    pub fn name(&self) -> (name: &'static str)
        ensures
            name@ == "espeak"@,
    {
        "espeak"
    }

    /// The `libespeak-ng` voice to phonemize with.
    pub fn voice(&self) -> (voice: &'static str)
        ensures
            voice@ == "gmw/en-US"@,
    {
        "gmw/en-US"
    }

    /// The IPA string that a run of the library gave, empty where it gave none.
    pub fn settle(&self, run: EspeakRun) -> (ipa: Result<String, PhonemizerError>)
        ensures
            match run {
                EspeakRun::NotInitialised(e) => ipa matches Err(PhonemizerError::EspeakInit(m))
                    && m@ == e@,
                EspeakRun::NoVoice(e) => ipa matches Err(PhonemizerError::EspeakFailed(m)) && m@
                    == "set voice: "@ + e@,
                EspeakRun::Failed(e) => ipa matches Err(PhonemizerError::EspeakFailed(m)) && m@
                    == "phonemize: "@ + e@,
                EspeakRun::Phonemes(Some(phonemes)) => ipa matches Ok(s) && s@ == phonemes@,
                EspeakRun::Phonemes(None) => ipa matches Ok(s) && s@.len() == 0,
            },
    {
        match run {
            EspeakRun::NotInitialised(e) => Err(PhonemizerError::EspeakInit(e)),
            EspeakRun::NoVoice(e) => Err(
                PhonemizerError::EspeakFailed(prefixed("set voice: ", e.as_str())),
            ),
            EspeakRun::Failed(e) => Err(
                PhonemizerError::EspeakFailed(prefixed("phonemize: ", e.as_str())),
            ),
            EspeakRun::Phonemes(Some(phonemes)) => Ok(phonemes),
            EspeakRun::Phonemes(None) => Ok(String::new()),
        }
    }
}

/// Which backend phonemizes.
#[derive(Debug, Clone, Copy, PartialEq, Eq)]
pub enum PhonemizerKind {
    Espeak,
    Misaki,
}

impl PhonemizerKind {
    /// The kind that a name stands for.
    pub open spec fn named(name: Seq<char>) -> Option<PhonemizerKind> {
        if name == "espeak"@ {
            Some(PhonemizerKind::Espeak)
        } else if name == "misaki"@ {
            Some(PhonemizerKind::Misaki)
        } else {
            None
        }
    }

    /// The kind that a name stands for.
    pub fn from_str(s: &str) -> (kind: Result<PhonemizerKind, PhonemizerError>)
        ensures
            match Self::named(s@) {
                Some(k) => kind matches Ok(found) && found == k,
                None => kind matches Err(PhonemizerError::UnknownBackend(name)) && name@ == s@,
            },
    {
        if text::same_text(s, "espeak") {
            Ok(PhonemizerKind::Espeak)
        } else if text::same_text(s, "misaki") {
            Ok(PhonemizerKind::Misaki)
        } else {
            Err(PhonemizerError::UnknownBackend(s.to_owned()))
        }
    }
}

/// The backend of a kind: the caller's `espeak` backend or [`MisakiBackend`].
#[derive(Debug)]
pub enum SelectedBackend<E> {
    Espeak(E),
    Misaki(MisakiBackend),
}

impl<E: PhonemizerBackend> PhonemizerBackend for SelectedBackend<E> {
    open spec fn accepts(&self, text: Seq<char>) -> bool {
        match self {
            SelectedBackend::Espeak(backend) => backend.accepts(text),
            SelectedBackend::Misaki(backend) => backend.accepts(text),
        }
    }

    open spec fn may_return(
        &self,
        text: Seq<char>,
        ipa: Result<String, PhonemizerError>,
    ) -> bool {
        match self {
            SelectedBackend::Espeak(backend) => backend.may_return(text, ipa),
            SelectedBackend::Misaki(backend) => backend.may_return(text, ipa),
        }
    }

    fn name(&self) -> (name: &'static str)
        ensures
            match self {
                SelectedBackend::Espeak(backend) => call_ensures(E::name, (backend,), name),
                SelectedBackend::Misaki(_) => name@ == "misaki"@,
            },
    {
        match self {
            SelectedBackend::Espeak(backend) => backend.name(),
            SelectedBackend::Misaki(backend) => backend.name(),
        }
    }

    fn text_to_ipa(&self, text: &str) -> (ipa: Result<String, PhonemizerError>) {
        match self {
            SelectedBackend::Espeak(backend) => backend.text_to_ipa(text),
            SelectedBackend::Misaki(backend) => backend.text_to_ipa(text),
        }
    }
}

/// Text to token sequences: a backend, then the vocabulary.
#[derive(Debug)]
pub struct Phonemizer<B> {
    pub backend: B,
    pub mapper: VocabMapper,
}

/// The outcome of loading a phonemizer with the given backend from a vocabulary file.
pub open spec fn loads_phonemizer<B>(
    loaded: Result<Phonemizer<B>, PhonemizerError>,
    vocab_path: Seq<char>,
    read: Result<String, String>,
    backend: B,
) -> bool {
    match loaded {
        Ok(p) => p.backend == backend && maps_vocab_file(Ok(p.mapper), vocab_path, read),
        Err(e) => maps_vocab_file(Err(e), vocab_path, read),
    }
}

impl<B: PhonemizerBackend> Phonemizer<B> {
    /// Loads the phonemizer from what reading the vocabulary file at `vocab_path` gave.
    pub fn load(vocab_path: &str, read: Result<String, String>, backend: B) -> (loaded: Result<
        Phonemizer<B>,
        PhonemizerError,
    >)
        ensures
            loads_phonemizer(loaded, vocab_path@, read, backend),
    {
        match VocabMapper::load(vocab_path, read) {
            Ok(mapper) => Ok(Phonemizer { backend, mapper }),
            Err(e) => Err(e),
        }
    }

    /// `tokens` are the tokens of the phonemes `ipa`, or the error that stands in their place.
    pub open spec fn tokenizes(
        &self,
        ipa: Result<String, PhonemizerError>,
        tokens: Result<Vec<i64>, PhonemizerError>,
    ) -> bool {
        match ipa {
            Ok(phonemes) => tokens matches Ok(ids) && ids@ == token_ids(
                self.mapper.vocab(),
                self.mapper.bos_id,
                self.mapper.eos_id,
                phonemes@,
            ),
            Err(e) => tokens == Err::<Vec<i64>, PhonemizerError>(e),
        }
    }

    /// The token sequence of what a backend came back with.
    pub fn tokens_of(&self, ipa: Result<String, PhonemizerError>) -> (tokens: Result<
        Vec<i64>,
        PhonemizerError,
    >)
        ensures
            self.tokenizes(ipa, tokens),
    {
        match ipa {
            Ok(phonemes) => Ok(self.mapper.ipa_to_tokens(phonemes.as_str())),
            Err(e) => Err(e),
        }
    }

    /// The token sequence of a text: of the IPA string that the backend returns for it.
    pub fn phonemize(&self, text: &str) -> (tokens: Result<Vec<i64>, PhonemizerError>)
        requires
            self.backend.accepts(text@),
        ensures
            exists|ipa: Result<String, PhonemizerError>|
                #[trigger] self.backend.may_return(text@, ipa) && self.tokenizes(ipa, tokens),
    {
        let ipa = self.backend.text_to_ipa(text);
        let ghost returned = ipa;
        let tokens = self.tokens_of(ipa);
        assert(self.backend.may_return(text@, returned) && self.tokenizes(returned, tokens));
        tokens
    }
}

impl<E: PhonemizerBackend> Phonemizer<SelectedBackend<E>> {
    /// Loads the phonemizer with the backend that `variable` names, `espeak` by default. The
    /// backend of that name is the caller's.
    pub fn load_from_env(
        variable: Option<&str>,
        espeak: E,
        vocab_path: &str,
        read: Result<String, String>,
    ) -> (loaded: Result<Phonemizer<SelectedBackend<E>>, PhonemizerError>)
        ensures
            ({
                let name = match variable {
                    Some(v) => v@,
                    None => "espeak"@,
                };
                match PhonemizerKind::named(name) {
                    None => loaded matches Err(PhonemizerError::UnknownBackend(n)) && n@ == name,
                    Some(PhonemizerKind::Espeak) => loads_phonemizer(
                        loaded,
                        vocab_path@,
                        read,
                        SelectedBackend::Espeak(espeak),
                    ),
                    Some(PhonemizerKind::Misaki) => loads_phonemizer(
                        loaded,
                        vocab_path@,
                        read,
                        SelectedBackend::Misaki(MisakiBackend),
                    ),
                }
            }),
    {
        let name: &str = match variable {
            Some(v) => v,
            None => "espeak",
        };
        let backend: SelectedBackend<E> = match PhonemizerKind::from_str(name) {
            Err(e) => return Err(e),
            Ok(PhonemizerKind::Espeak) => SelectedBackend::Espeak(espeak),
            Ok(PhonemizerKind::Misaki) => SelectedBackend::Misaki(MisakiBackend),
        };
        Self::load(vocab_path, read, backend)
    }
}

/// A token sequence starts with BOS, ends with EOS and holds at most [`MAX_TOKENS`] in between.
pub proof fn tokens_are_framed(vocab: Map<char, i64>, bos: i64, eos: i64, ipa: Seq<char>)
    ensures
        2 <= token_ids(vocab, bos, eos, ipa).len() <= MAX_TOKENS + 2,
        token_ids(vocab, bos, eos, ipa).first() == bos,
        token_ids(vocab, bos, eos, ipa).last() == eos,
{
}

/// The tokens of two strings of phonemes behind one another are the tokens of the first, then
/// those of the second.
pub proof fn tokens_are_joined(vocab: Map<char, i64>, head: Seq<char>, tail: Seq<char>)
    ensures
        phoneme_tokens(vocab, head + tail) == phoneme_tokens(vocab, head) + phoneme_tokens(
            vocab,
            tail,
        ),
    decreases tail.len(),
{
    reveal(Seq::filter);
    if tail.len() == 0 {
        assert(head + tail =~= head);
    } else {
        tokens_are_joined(vocab, head, tail.drop_last());
        assert((head + tail).drop_last() =~= head + tail.drop_last());
        let kept = tail.drop_last().filter(|c: char| has_token(vocab, c));
        if has_token(vocab, tail.last()) {
            assert(tail.filter(|c: char| has_token(vocab, c)) =~= kept.push(tail.last()));
        }
    }
    assert(phoneme_tokens(vocab, head + tail) =~= phoneme_tokens(vocab, head) + phoneme_tokens(
        vocab,
        tail,
    ));
}

/// Stress and tie marks, and phonemes that the vocabulary does not hold, make no difference.
pub proof fn other_phonemes_do_not_matter(
    vocab: Map<char, i64>,
    head: Seq<char>,
    c: char,
    tail: Seq<char>,
)
    requires
        is_mark(c) || !vocab.contains_key(c),
    ensures
        phoneme_tokens(vocab, head + seq![c] + tail) == phoneme_tokens(vocab, head + tail),
{
    tokens_are_joined(vocab, head + seq![c], tail);
    tokens_are_joined(vocab, head, seq![c]);
    tokens_are_joined(vocab, head, tail);
    assert(phoneme_tokens(vocab, seq![c]) =~= Seq::empty()) by {
        seq![c].lemma_filter_len(|d: char| has_token(vocab, d));
        if phoneme_tokens(vocab, seq![c]).len() > 0 {
            let kept = seq![c].filter(|d: char| has_token(vocab, d));
            seq![c].lemma_filter_pred(|d: char| has_token(vocab, d), 0);
            seq![c].lemma_filter_contains_rev(|d: char| has_token(vocab, d), kept[0]);
            assert(seq![c].contains(kept[0]));
        }
    }
    assert(phoneme_tokens(vocab, head) + Seq::<i64>::empty() =~= phoneme_tokens(vocab, head));
}

/// Every phoneme token is one that the vocabulary holds.
pub proof fn tokens_are_known(vocab: Map<char, i64>, ipa: Seq<char>, i: int)
    requires
        0 <= i < phoneme_tokens(vocab, ipa).len(),
    ensures
        exists|c: char| #[trigger] has_token(vocab, c) && vocab[c] == phoneme_tokens(vocab, ipa)[i],
{
    let kept = ipa.filter(|c: char| has_token(vocab, c));
    ipa.lemma_filter_pred(|c: char| has_token(vocab, c), i);
    assert(has_token(vocab, kept[i]));
}

} // verus!
