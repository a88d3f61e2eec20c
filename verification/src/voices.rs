//! Voice style embeddings.
use crate::error::{VoiceError, VoiceErrorView};
use crate::text;
use vstd::prelude::*;

verus! {

/// A file of the voices directory, as the file system reports it.
#[derive(Debug)]
pub struct VoiceFile {
    pub path: String,
    /// The file name's extension, where it has one that is valid Unicode.
    pub extension: Option<String>,
    /// The file name without its extension, where that is valid Unicode.
    pub stem: Option<String>,
    /// What reading the file gave. Only looked at for a voice file.
    pub contents: Result<Vec<u8>, String>,
}

/// The elements of one style embedding.
pub const STYLE_LEN: usize = 256;

/// A file extension that marks voice files.
pub open spec fn marks_voice(extension: Option<Seq<char>>) -> bool {
    extension == Some("bin"@)
}

/// Whether a file with this extension is a voice file.
pub fn is_voice_file(extension: Option<&str>) -> (yes: bool)
    ensures
        yes == marks_voice(
            match extension {
                Some(e) => Some(e@),
                None => None,
            },
        ),
{
    match extension {
        Some(e) => text::same_text(e, "bin"),
        None => false,
    }
}

/// The 32-bit little-endian word that starts at byte `4 * i`.
pub open spec fn le_word(bytes: Seq<u8>, i: int) -> u32 {
    (bytes[4 * i] + 0x100 * bytes[4 * i + 1] + 0x1_0000 * bytes[4 * i + 2] + 0x100_0000 * bytes[4
        * i + 3]) as u32
}

/// The 32-bit little-endian words that `bytes` holds.
pub open spec fn le_words(bytes: Seq<u8>) -> Seq<u32> {
    Seq::new(bytes.len() / 4, |i: int| le_word(bytes, i))
}

fn words_of(bytes: &Vec<u8>) -> (words: Vec<u32>)
    ensures
        words@ == le_words(bytes@),
{
    let count: usize = bytes.len() / 4;
    let mut words: Vec<u32> = Vec::new();
    let mut i: usize = 0;
    while i < count
        invariant
            i <= count,
            count == bytes.len() / 4,
            words@ =~= le_words(bytes@).take(i as int),
        decreases count - i,
    {
        let word: u32 = bytes[4 * i] as u32 + 0x100 * bytes[4 * i + 1] as u32 + 0x1_0000
            * bytes[4 * i + 2] as u32 + 0x100_0000 * bytes[4 * i + 3] as u32;
        words.push(word);
        i += 1;
    }
    assert(le_words(bytes@).take(count as int) =~= le_words(bytes@));
    words
}

/// What one entry of the voices directory contributes: nothing, a voice, or a reason to give up.
pub open spec fn entry_voice(entry: Result<VoiceFile, String>) -> Option<
    Result<(Seq<char>, Seq<u32>), VoiceErrorView>,
> {
    match entry {
        Err(source) => Some(Err(VoiceErrorView::DirEntry(source@))),
        Ok(file) => {
            let extension = match file.extension {
                Some(e) => Some(e@),
                None => None,
            };
            if !marks_voice(extension) {
                None
            } else {
                match (file.stem, file.contents) {
                    (None, _) => Some(Err(VoiceErrorView::InvalidFilename(file.path@))),
                    (_, Err(source)) => Some(
                        Err(VoiceErrorView::FileRead { path: file.path@, source: source@ }),
                    ),
                    (Some(name), Ok(raw)) => if raw@.len() % 1024 != 0 {
                        Some(
                            Err(
                                VoiceErrorView::InvalidBinSize {
                                    path: file.path@,
                                    len: raw@.len(),
                                },
                            ),
                        )
                    } else {
                        Some(Ok((name@, le_words(raw@))))
                    },
                }
            }
        },
    }
}

/// The voices that directory entries hold, the later of two of one name; or the first reason to
/// give up.
pub open spec fn entries_voices(entries: Seq<Result<VoiceFile, String>>) -> Result<
    Map<Seq<char>, Seq<u32>>,
    VoiceErrorView,
>
    decreases entries.len(),
{
    if entries.len() == 0 {
        Ok(Map::empty())
    } else {
        match entries_voices(entries.drop_last()) {
            Err(e) => Err(e),
            Ok(voices) => match entry_voice(entries.last()) {
                None => Ok(voices),
                Some(Err(e)) => Err(e),
                Some(Ok((name, styles))) => Ok(voices.insert(name, styles)),
            },
        }
    }
}

/// What loading a voices directory gives: its voices, of which there must be one at least.
pub open spec fn directory_voices(
    voices_dir: Seq<char>,
    listing: Result<Vec<Result<VoiceFile, String>>, String>,
) -> Result<Map<Seq<char>, Seq<u32>>, VoiceErrorView> {
    match listing {
        Err(source) => Err(VoiceErrorView::DirOpen { path: voices_dir, source: source@ }),
        Ok(entries) => match entries_voices(entries@) {
            Err(e) => Err(e),
            Ok(voices) => if voices == Map::<Seq<char>, Seq<u32>>::empty() {
                Err(VoiceErrorView::EmptyVoicesDir(voices_dir))
            } else {
                Ok(voices)
            },
        },
    }
}

/// The style embedding that a voice with the given styles has for `seq_len` tokens: row
/// `seq_len`, or the last row where there are fewer.
pub open spec fn style_row(styles: Seq<u32>, seq_len: nat) -> Seq<u32> {
    let rows = styles.len() / 256;
    let row = if seq_len < rows {
        seq_len as int
    } else {
        rows - 1
    };
    styles.subrange(row * 256, (row + 1) * 256)
}

#[derive(Debug)]
struct Voice {
    name: String,
    styles: Vec<u32>,
}

/// Loaded voices. Each name maps to the single-precision bit patterns of a table with 256
/// columns, row behind row; how many rows there are differs from voice to voice.
#[derive(Debug)]
pub struct VoiceBank {
    voices: Vec<Voice>,
}

spec fn sorted(voices: Seq<Voice>) -> bool {
    forall|i: int, j: int|
        0 <= i < j < voices.len() ==> text::precedes(
            (#[trigger] voices[i]).name@,
            (#[trigger] voices[j]).name@,
        )
}

spec fn has_voice(voices: Seq<Voice>, name: Seq<char>, i: int) -> bool {
    0 <= i < voices.len() && voices[i].name@ == name
}

spec fn table(voices: Seq<Voice>) -> Map<Seq<char>, Seq<u32>> {
    Map::new(
        |name: Seq<char>| exists|i: int| has_voice(voices, name, i),
        |name: Seq<char>| voices[choose|i: int| has_voice(voices, name, i)].styles@,
    )
}

proof fn table_entry(voices: Seq<Voice>, i: int)
    requires
        sorted(voices),
        0 <= i < voices.len(),
    ensures
        table(voices).contains_key(voices[i].name@),
        table(voices)[voices[i].name@] == voices[i].styles@,
{
    let name = voices[i].name@;
    assert(has_voice(voices, name, i));
    let k = choose|k: int| has_voice(voices, name, k);
    text::precedes_is_total(name, name);
    assert(k == i);
}

impl View for VoiceBank {
    type V = Map<Seq<char>, Seq<u32>>;

    closed spec fn view(&self) -> Map<Seq<char>, Seq<u32>> {
        table(self.voices@)
    }
}

/// Adds a voice at its place in the order of names, or replaces the one that has its name.
fn insert_voice(voices: &mut Vec<Voice>, voice: Voice)
    requires
        sorted(old(voices)@),
    ensures
        sorted(final(voices)@),
        final(voices)@.len() > 0,
        table(final(voices)@) == table(old(voices)@).insert(voice.name@, voice.styles@),
{
    let mut at: usize = 0;
    let ghost before = voices@;
    let ghost name = voice.name@;
    let ghost styles = voice.styles@;
    while at < voices.len() && text::text_precedes(voices[at].name.as_str(), voice.name.as_str())
        invariant
            at <= voices.len(),
            voices@ == before,
            name == voice.name@,
            forall|i: int| 0 <= i < at ==> text::precedes((#[trigger] before[i]).name@, name),
        decreases voices.len() - at,
    {
        at += 1;
    }
    let replace: bool = at < voices.len() && text::same_text(
        voices[at].name.as_str(),
        voice.name.as_str(),
    );
    if replace {
        voices.set(at, voice);
        assert(voices@ == before.update(at as int, voice));
    } else {
        voices.insert(at, voice);
        assert(voices@ == before.insert(at as int, voice));
    }
    proof {
        let after = voices@;
        if at < before.len() {
            text::precedes_is_total(before[at as int].name@, name);
        }
        assert forall|i: int| at <= i < before.len() && !replace implies text::precedes(
            name,
            (#[trigger] before[i]).name@,
        ) by {
            if i > at {
                text::precedes_is_transitive(name, before[at as int].name@, before[i].name@);
            }
        }
        assert(sorted(after)) by {
            assert forall|i: int, j: int| 0 <= i < j < after.len() implies text::precedes(
                (#[trigger] after[i]).name@,
                (#[trigger] after[j]).name@,
            ) by {
                if !replace {
                    if i < at && j > at {
                        assert(after[j] == before[j - 1]);
                    } else if i == at {
                        assert(after[j] == before[j - 1]);
                    } else if i > at {
                        assert(after[i] == before[i - 1]);
                        assert(after[j] == before[j - 1]);
                    }
                }
            }
        }
        let expected = table(before).insert(name, styles);
        assert forall|k: Seq<char>| table(after).contains_key(k) == expected.contains_key(k) by {
            if k == name {
                table_entry(after, at as int);
            } else {
                if table(after).contains_key(k) {
                    let i = choose|i: int| has_voice(after, k, i);
                    let o = if replace || i < at {
                        i
                    } else {
                        i - 1
                    };
                    assert(has_voice(before, k, o));
                }
                if table(before).contains_key(k) {
                    let o = choose|o: int| has_voice(before, k, o);
                    let i = if replace || o < at {
                        o
                    } else {
                        o + 1
                    };
                    assert(has_voice(after, k, i));
                }
            }
        }
        assert forall|k: Seq<char>| table(after).contains_key(k) implies table(after)[k]
            == expected[k] by {
            let i = choose|i: int| has_voice(after, k, i);
            table_entry(after, i);
            table_entry(after, at as int);
            if k != name {
                let o = if replace || i < at {
                    i
                } else {
                    i - 1
                };
                table_entry(before, o);
            }
        }
        assert(table(after) =~= expected);
    }
}

impl VoiceBank {
    #[verifier::type_invariant]
    spec fn inv(self) -> bool {
        sorted(self.voices@)
    }

    /// Loads every voice file of a directory from what listing it and reading its voice files
    /// gave. The stem of a file name becomes the voice name: `af_heart.bin` gives `af_heart`.
    pub fn load(
        voices_dir: &str,
        listing: Result<Vec<Result<VoiceFile, String>>, String>,
    ) -> (loaded: Result<VoiceBank, VoiceError>)
        ensures
            match (loaded, directory_voices(voices_dir@, listing)) {
                (Ok(bank), Ok(voices)) => bank@ == voices,
                (Err(e), Err(v)) => e@ == v,
                _ => false,
            },
    {
        let entries: &Vec<Result<VoiceFile, String>> = match &listing {
            Err(source) => {
                return Err(
                    VoiceError::DirOpen { path: voices_dir.to_owned(), source: source.clone() },
                );
            },
            Ok(entries) => entries,
        };
        let mut voices: Vec<Voice> = Vec::new();
        let mut i: usize = 0;
        assert(entries@.take(0) =~= Seq::empty());
        assert(table(voices@) =~= Map::empty());
        while i < entries.len()
            invariant
                i <= entries.len(),
                sorted(voices@),
                entries_voices(entries@.take(i as int)) == Ok::<_, VoiceErrorView>(table(voices@)),
                (voices@.len() == 0) == (table(voices@) == Map::<Seq<char>, Seq<u32>>::empty()),
                listing matches Ok(l) && l == *entries,
            decreases entries.len() - i,
        {
            let ghost upto = entries@.take(i + 1);
            assert(upto.drop_last() =~= entries@.take(i as int));
            assert(upto.last() == entries@[i as int]);
            let taken = Self::read_entry(&entries[i]);
            match taken {
                None => {},
                Some(Err(e)) => {
                    proof {
                        first_error_stands(entries@, i + 1);
                    }
                    return Err(e);
                },
                Some(Ok(voice)) => {
                    let ghost name = voice.name@;
                    insert_voice(&mut voices, voice);
                    assert(table(voices@).contains_key(name));
                },
            }
            i += 1;
        }
        assert(entries@.take(entries@.len() as int) =~= entries@);
        if voices.len() == 0 {
            return Err(VoiceError::EmptyVoicesDir(voices_dir.to_owned()));
        }
        Ok(VoiceBank { voices })
    }

    fn read_entry(entry: &Result<VoiceFile, String>) -> (taken: Option<Result<Voice, VoiceError>>)
        ensures
            match (taken, entry_voice(*entry)) {
                (None, None) => true,
                (Some(Err(e)), Some(Err(v))) => e@ == v,
                (Some(Ok(voice)), Some(Ok(v))) => voice.name@ == v.0 && voice.styles@ == v.1,
                _ => false,
            },
    {
        let file: &VoiceFile = match entry {
            Err(source) => {
                return Some(Err(VoiceError::DirEntry(source.clone())));
            },
            Ok(file) => file,
        };
        let extension: Option<&str> = match &file.extension {
            Some(e) => Some(e.as_str()),
            None => None,
        };
        if !is_voice_file(extension) {
            return None;
        }
        let name: &String = match &file.stem {
            None => {
                return Some(Err(VoiceError::InvalidFilename(file.path.clone())));
            },
            Some(name) => name,
        };
        let raw: &Vec<u8> = match &file.contents {
            Err(source) => {
                return Some(
                    Err(VoiceError::FileRead { path: file.path.clone(), source: source.clone() }),
                );
            },
            Ok(raw) => raw,
        };
        if raw.len() % (STYLE_LEN * 4) != 0 {
            return Some(
                Err(VoiceError::InvalidBinSize { path: file.path.clone(), len: raw.len() }),
            );
        }
        Some(Ok(Voice { name: name.clone(), styles: words_of(raw) }))
    }

    /// The 256-element style embedding of `voice` for a sequence of `seq_len` tokens.
    pub fn get_style(&self, voice: &str, seq_len: usize) -> (style: Result<Vec<u32>, VoiceError>)
        ensures
            !self@.contains_key(voice@) ==> (style matches Err(VoiceError::UnknownVoice { name })
                && name@ == voice@),
            self@.contains_key(voice@) && self@[voice@].len() < 256 ==> (style matches Err(
                VoiceError::ZeroStyles { name },
            ) && name@ == voice@),
            self@.contains_key(voice@) && self@[voice@].len() >= 256 ==> (style matches Ok(row)
                && row@ == style_row(self@[voice@], seq_len as nat)),
    {
        proof {
            use_type_invariant(self);
        }
        let mut at: usize = 0;
        while at < self.voices.len() && !text::same_text(self.voices[at].name.as_str(), voice)
            invariant
                at <= self.voices.len(),
                forall|i: int| 0 <= i < at ==> (#[trigger] self.voices@[i]).name@ != voice@,
            decreases self.voices.len() - at,
        {
            at += 1;
        }
        if at == self.voices.len() {
            assert(!self@.contains_key(voice@)) by {
                if self@.contains_key(voice@) {
                    let i = choose|i: int| has_voice(self.voices@, voice@, i);
                    assert(has_voice(self.voices@, voice@, i));
                }
            }
            return Err(VoiceError::UnknownVoice { name: voice.to_owned() });
        }
        proof {
            table_entry(self.voices@, at as int);
        }
        let styles: &Vec<u32> = &self.voices[at].styles;
        let rows: usize = styles.len() / STYLE_LEN;
        if rows == 0 {
            return Err(VoiceError::ZeroStyles { name: voice.to_owned() });
        }
        let row: usize = if seq_len < rows - 1 {
            seq_len
        } else {
            rows - 1
        };
        let mut style: Vec<u32> = Vec::new();
        let mut i: usize = 0;
        while i < STYLE_LEN
            invariant
                i <= STYLE_LEN,
                row * 256 + 256 <= styles.len(),
                style@ =~= styles@.subrange(row * 256, row * 256 + i),
            decreases STYLE_LEN - i,
        {
            style.push(styles[row * STYLE_LEN + i]);
            i += 1;
        }
        Ok(style)
    }

    /// All loaded voice names, sorted.
    pub fn voice_names(&self) -> (names: Vec<&str>)
        ensures
            forall|name: Seq<char>|
                self@.contains_key(name) <==> exists|i: int|
                    0 <= i < names@.len() && (#[trigger] names@[i])@ == name,
            forall|i: int, j: int|
                0 <= i < j < names@.len() ==> text::precedes(
                    (#[trigger] names@[i])@,
                    (#[trigger] names@[j])@,
                ),
            names@.len() == self@.len(),
    {
        proof {
            use_type_invariant(self);
        }
        let mut names: Vec<&str> = Vec::new();
        let mut i: usize = 0;
        while i < self.voices.len()
            invariant
                i <= self.voices.len(),
                names@.len() == i,
                forall|k: int| 0 <= k < i ==> (#[trigger] names@[k])@ == self.voices@[k].name@,
            decreases self.voices.len() - i,
        {
            names.push(self.voices[i].name.as_str());
            i += 1;
        }
        proof {
            assert forall|name: Seq<char>|
                self@.contains_key(name) <==> exists|i: int|
                    0 <= i < names@.len() && (#[trigger] names@[i])@ == name by {
                if self@.contains_key(name) {
                    let k = choose|k: int| has_voice(self.voices@, name, k);
                    assert(names@[k]@ == name);
                }
                if exists|i: int| 0 <= i < names@.len() && (#[trigger] names@[i])@ == name {
                    let k = choose|k: int| 0 <= k < names@.len() && (#[trigger] names@[k])@ == name;
                    assert(has_voice(self.voices@, name, k));
                }
            }
            let texts = names@.map_values(|name: &str| name@);
            assert forall|i: int, j: int|
                0 <= i < j < texts.len() implies texts[i] != texts[j] by {
                assert(text::precedes(names@[i]@, names@[j]@));
                text::precedes_is_total(texts[i], texts[i]);
            }
            assert(texts.no_duplicates());
            texts.unique_seq_to_set();
            assert forall|name: Seq<char>| self@.dom().contains(name) == texts.to_set().contains(
                name,
            ) by {
                if self@.contains_key(name) {
                    let k = choose|k: int| 0 <= k < names@.len() && (#[trigger] names@[k])@ == name;
                    assert(texts[k] == name);
                }
                if texts.contains(name) {
                    let k = choose|k: int| 0 <= k < texts.len() && texts[k] == name;
                    assert(names@[k]@ == name);
                }
            }
            assert(self@.dom() =~= texts.to_set());
        }
        names
    }
}

proof fn first_error_stands(entries: Seq<Result<VoiceFile, String>>, n: int)
    requires
        0 <= n <= entries.len(),
        entries_voices(entries.take(n)) is Err,
    ensures
        entries_voices(entries) == entries_voices(entries.take(n)),
    decreases entries.len(),
{
    if n == entries.len() {
        assert(entries.take(n) =~= entries);
    } else {
        assert(entries.drop_last().take(n) =~= entries.take(n));
        first_error_stands(entries.drop_last(), n);
    }
}

/// A style embedding has 256 elements.
pub proof fn style_is_complete(styles: Seq<u32>, seq_len: nat)
    requires
        styles.len() >= 256,
    ensures
        style_row(styles, seq_len).len() == 256,
{
}

/// From the last row on, longer sequences have the same style.
pub proof fn long_sequences_share_a_style(styles: Seq<u32>, seq_len: nat, longer: nat)
    requires
        styles.len() / 256 <= seq_len + 1,
        seq_len <= longer,
    ensures
        style_row(styles, longer) == style_row(styles, seq_len),
{
}

/// Every voice of a directory is a table of whole rows.
pub proof fn voices_have_whole_rows(entries: Seq<Result<VoiceFile, String>>, name: Seq<char>)
    requires
        entries_voices(entries) matches Ok(voices) && voices.contains_key(name),
    ensures
        entries_voices(entries)->Ok_0[name].len() % 256 == 0,
    decreases entries.len(),
{
    if entries.len() > 0 {
        let earlier = entries_voices(entries.drop_last());
        if earlier->Ok_0.contains_key(name) {
            voices_have_whole_rows(entries.drop_last(), name);
        }
    }
}

/// The voices of a directory are those that its entries hold: each name that one holds, and none
/// else.
pub proof fn voices_are_those_of_the_entries(
    entries: Seq<Result<VoiceFile, String>>,
    name: Seq<char>,
)
    requires
        entries_voices(entries) is Ok,
    ensures
        entries_voices(entries)->Ok_0.contains_key(name) <==> exists|i: int|
            0 <= i < entries.len() && entry_names(#[trigger] entries[i], name),
    decreases entries.len(),
{
    if entries.len() > 0 {
        let rest = entries.drop_last();
        voices_are_those_of_the_entries(rest, name);
        let last = entries.len() - 1;
        if entries_voices(entries)->Ok_0.contains_key(name) {
            if entry_names(entries.last(), name) {
                assert(entry_names(entries[last], name));
            } else {
                let i = choose|i: int| 0 <= i < rest.len() && entry_names(#[trigger] rest[i], name);
                assert(entry_names(entries[i], name));
            }
        }
        if exists|i: int| 0 <= i < entries.len() && entry_names(#[trigger] entries[i], name) {
            let i = choose|i: int|
                0 <= i < entries.len() && entry_names(#[trigger] entries[i], name);
            if i < last {
                assert(entry_names(rest[i], name));
            }
        }
    }
}

/// An entry that holds a voice of the given name.
pub open spec fn entry_names(entry: Result<VoiceFile, String>, name: Seq<char>) -> bool {
    entry_voice(entry) matches Some(Ok(voice)) && voice.0 == name
}

proof fn voices_are_finite(entries: Seq<Result<VoiceFile, String>>)
    requires
        entries_voices(entries) is Ok,
    ensures
        entries_voices(entries)->Ok_0.dom().finite(),
    decreases entries.len(),
{
    if entries.len() > 0 {
        voices_are_finite(entries.drop_last());
    }
}

/// A directory that can be loaded has a voice.
pub proof fn loaded_voices_are_some(
    voices_dir: Seq<char>,
    listing: Result<Vec<Result<VoiceFile, String>>, String>,
)
    requires
        directory_voices(voices_dir, listing) is Ok,
    ensures
        directory_voices(voices_dir, listing)->Ok_0.len() > 0,
{
    let voices = directory_voices(voices_dir, listing)->Ok_0;
    voices_are_finite(listing->Ok_0@);
    if voices.len() == 0 {
        assert(voices.dom() =~= Set::empty());
        assert(voices =~= Map::empty());
    }
}

/// The words of a file hold all its bytes, the low byte of each word first.
proof fn words_hold_the_bytes(bytes: Vec<u8>, words: Vec<u32>)
    requires
        call_ensures(words_of, (&bytes,), words),
    ensures
        words@.len() == bytes@.len() / 4,
        forall|i: int|
            0 <= i < words@.len() ==> #[trigger] words@[i] == bytes@[4 * i] + 0x100 * bytes@[4 * i
                + 1] + 0x1_0000 * bytes@[4 * i + 2] + 0x100_0000 * bytes@[4 * i + 3],
{
}

} // verus!
