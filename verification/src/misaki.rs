//! The phonemes that the `misaki-rs` crate gives a text.
use crate::text;
use vstd::prelude::*;

verus! {

/// The position of the next `c` in `text`, from `from` on; the length where there is none.
pub open spec fn next_at(text: Seq<char>, from: int, c: char) -> int
    decreases text.len() - from,
{
    if from >= text.len() {
        text.len() as int
    } else if text[from] == c {
        from
    } else {
        next_at(text, from + 1, c)
    }
}

/// Where the words of a marker that starts at `p` end.
pub open spec fn words_end(text: Seq<char>, p: int) -> int {
    next_at(text, p + 1, ']')
}

/// Where a marker that starts at `p` ends.
pub open spec fn marker_end(text: Seq<char>, p: int) -> int {
    next_at(text, words_end(text, p) + 2, ')')
}

/// A marker `[words](feature)`, which tells how words are spoken, starts at `p`.
pub open spec fn is_marker(text: Seq<char>, p: int) -> bool {
    &&& text[p] == '['
    &&& p + 1 < words_end(text, p) < text.len() - 1
    &&& text[words_end(text, p) + 1] == '('
    &&& words_end(text, p) + 1 < marker_end(text, p) < text.len()
}

/// The text from `p` on with each marker replaced by its words.
pub open spec fn unmarked(text: Seq<char>, p: int) -> Seq<char>
    decreases text.len() - p,
{
    if p >= text.len() {
        Seq::empty()
    } else if is_marker(text, p) {
        text.subrange(p + 1, words_end(text, p)) + unmarked(text, marker_end(text, p) + 1)
    } else {
        seq![text[p]] + unmarked(text, p + 1)
    }
}

/// An apostrophe, straight or curly.
pub open spec fn is_apostrophe(c: char) -> bool {
    c == '\'' || c == '\u{2018}' || c == '\u{2019}'
}

/// A character that is looked up as ASCII: curly apostrophes as a straight one, a trade mark sign
/// as two letters.
pub open spec fn is_plain(c: char) -> bool {
    c <= '\u{7f}' || is_apostrophe(c) || c == '\u{2122}'
}

/// A word may end in `ing` at `k`.
pub open spec fn is_ing(text: Seq<char>, k: int) -> bool {
    &&& k + 3 <= text.len()
    &&& text[k] == 'i' || text[k] == 'I'
    &&& text[k + 1] == 'n' || text[k + 1] == 'N'
    &&& text[k + 2] == 'g' || text[k + 2] == 'G'
    &&& k + 3 < text.len() ==> !('a' <= text[k + 3] <= 'z')
}

/// The `ing` at `k` is in lower case.
pub open spec fn is_lower(text: Seq<char>, k: int) -> bool {
    text[k] == 'i' && text[k + 1] == 'n' && text[k + 2] == 'g'
}

/// A letter of the Latin, Greek, Cyrillic, Japanese, Chinese or Korean script outside ASCII.
pub open spec fn is_letter(c: char) -> bool {
    ||| '\u{c0}' <= c <= '\u{2af}' && c != '\u{d7}' && c != '\u{f7}'
    ||| '\u{391}' <= c <= '\u{3a1}'
    ||| '\u{3a3}' <= c <= '\u{3f5}'
    ||| '\u{400}' <= c <= '\u{481}'
    ||| '\u{48a}' <= c <= '\u{52f}'
    ||| '\u{1e00}' <= c <= '\u{1eff}'
    ||| '\u{3041}' <= c <= '\u{3096}'
    ||| '\u{30a1}' <= c <= '\u{30fa}'
    ||| '\u{4e00}' <= c <= '\u{9fa5}'
    ||| '\u{ac00}' <= c <= '\u{d7a3}'
}

/// A punctuation mark, a symbol or a sign outside ASCII: quotation marks, dashes, currency signs,
/// arrows, pictographs and the like. No letter is among them.
pub open spec fn is_sign(c: char) -> bool {
    ||| '\u{80}' <= c <= '\u{bf}' && c != '\u{aa}' && c != '\u{b5}' && c != '\u{ba}'
    ||| c == '\u{d7}' || c == '\u{f7}'
    ||| '\u{2000}' <= c <= '\u{206f}'
    ||| '\u{20a0}' <= c <= '\u{20cf}'
    ||| '\u{2190}' <= c <= '\u{24b5}'
    ||| '\u{2500}' <= c <= '\u{2bff}'
    ||| '\u{3001}' <= c <= '\u{3004}'
    ||| '\u{3008}' <= c <= '\u{3020}'
    ||| '\u{ff01}' <= c <= '\u{ff20}'
    ||| '\u{1f300}' <= c <= '\u{1faff}'
}

/// A word that ends in the `ing` at `k` may be cut inside `c`, the character that comes before it. A
/// word that is not in lower case is brought into it only where it has no signs.
pub open spec fn may_cut(text: Seq<char>, k: int, c: char) -> bool {
    !is_plain(c) && (is_lower(text, k) || !is_sign(c))
}

/// A word that ends in the `ing` at `k` may be cut inside a character: the one before it, or the one
/// before an apostrophe, which is dropped where it does not follow on a letter.
pub open spec fn is_cut(text: Seq<char>, k: int) -> bool {
    is_ing(text, k) && {
        ||| k >= 1 && may_cut(text, k, text[k - 1])
        ||| k >= 2 && is_apostrophe(text[k - 1]) && may_cut(text, k, text[k - 2]) && !is_letter(
            text[k - 2],
        )
    }
}

/// ASCII white space.
pub open spec fn is_break(c: char) -> bool {
    c == ' ' || c == '\t' || c == '\n' || c == '\u{c}' || c == '\r'
}

/// The length of a run without white space that is too long to be split into words.
pub const RUN_LIMIT: usize = 499_900;

/// A run that starts at `i` ends before it reaches the limit.
pub open spec fn run_ends(text: Seq<char>, i: int) -> bool {
    exists|j: int| i <= j < i + RUN_LIMIT && is_break(#[trigger] text[j])
}

/// No run without white space reaches the limit.
pub open spec fn has_short_runs(text: Seq<char>) -> bool {
    forall|i: int| 0 <= i && i + RUN_LIMIT <= text.len() ==> #[trigger] run_ends(text, i)
}

/// A text that `misaki-rs` can read. It drops four bytes from the end of a word in `ing`, which
/// panics where these start inside a character, and it does not return once a run without white
/// space exceeds the limits of its regular expressions.
pub open spec fn is_readable(text: Seq<char>) -> bool {
    let words = unmarked(text, 0);
    &&& has_short_runs(words)
    &&& forall|k: int| 0 <= k < words.len() ==> !#[trigger] is_cut(words, k)
}

fn next_index(text: &Vec<char>, from: usize, c: char) -> (at: usize)
    requires
        from <= text.len(),
    ensures
        at == next_at(text@, from as int, c),
        from <= at <= text.len(),
{
    let mut at: usize = from;
    while at < text.len() && text[at] != c
        invariant
            from <= at <= text.len(),
            next_at(text@, from as int, c) == next_at(text@, at as int, c),
        decreases text.len() - at,
    {
        at += 1;
    }
    at
}

fn unmark(text: &Vec<char>) -> (words: Vec<char>)
    ensures
        words@ == unmarked(text@, 0),
{
    let mut words: Vec<char> = Vec::new();
    let mut p: usize = 0;
    while p < text.len()
        invariant
            p <= text.len(),
            words@ + unmarked(text@, p as int) =~= unmarked(text@, 0),
        decreases text.len() - p,
    {
        let ghost before = words@;
        if text[p] == '[' {
            let q: usize = next_index(text, p + 1, ']');
            if p + 1 < q && q < text.len() - 1 && text[q + 1] == '(' {
                let r: usize = next_index(text, q + 2, ')');
                if r < text.len() {
                    let mut i: usize = p + 1;
                    while i < q
                        invariant
                            p + 1 <= i <= q < text.len(),
                            words@ =~= before + text@.subrange(p + 1, i as int),
                        decreases q - i,
                    {
                        words.push(text[i]);
                        i += 1;
                    }
                    assert(is_marker(text@, p as int));
                    p = r + 1;
                    continue;
                }
            }
        }
        assert(!is_marker(text@, p as int));
        words.push(text[p]);
        p += 1;
    }
    words
}

fn short_runs(text: &Vec<char>) -> (yes: bool)
    ensures
        yes == has_short_runs(text@),
{
    let mut run: usize = 0;
    let mut k: usize = 0;
    while k < text.len()
        invariant
            k <= text.len(),
            run <= k,
            run < RUN_LIMIT,
            forall|j: int| k - run <= j < k ==> !is_break(#[trigger] text@[j]),
            run < k ==> is_break(text@[k - run - 1]),
            forall|i: int| 0 <= i && i + RUN_LIMIT <= k ==> #[trigger] run_ends(text@, i),
        decreases text.len() - k,
    {
        let c = text[k];
        if c == ' ' || c == '\t' || c == '\n' || c == '\u{c}' || c == '\r' {
            run = 0;
        } else {
            run += 1;
            if run == RUN_LIMIT {
                assert(!run_ends(text@, k + 1 - RUN_LIMIT));
                return false;
            }
        }
        k += 1;
        assert forall|i: int| 0 <= i && i + RUN_LIMIT <= k implies #[trigger] run_ends(
            text@,
            i,
        ) by {
            if i + RUN_LIMIT == k {
                assert(is_break(text@[k - run - 1]));
            }
        }
    }
    true
}

fn letter(c: char) -> (yes: bool)
    ensures
        yes == is_letter(c),
{
    ('\u{c0}' <= c && c <= '\u{2af}' && c != '\u{d7}' && c != '\u{f7}') || ('\u{391}' <= c && c
        <= '\u{3a1}') || ('\u{3a3}' <= c && c <= '\u{3f5}') || ('\u{400}' <= c && c <= '\u{481}')
        || ('\u{48a}' <= c && c <= '\u{52f}') || ('\u{1e00}' <= c && c <= '\u{1eff}') || (
    '\u{3041}' <= c && c <= '\u{3096}') || ('\u{30a1}' <= c && c <= '\u{30fa}') || ('\u{4e00}'
        <= c && c <= '\u{9fa5}') || ('\u{ac00}' <= c && c <= '\u{d7a3}')
}

fn sign(c: char) -> (yes: bool)
    ensures
        yes == is_sign(c),
{
    ('\u{80}' <= c && c <= '\u{bf}' && c != '\u{aa}' && c != '\u{b5}' && c != '\u{ba}') || c
        == '\u{d7}' || c == '\u{f7}' || ('\u{2000}' <= c && c <= '\u{206f}') || ('\u{20a0}' <= c
        && c <= '\u{20cf}') || ('\u{2190}' <= c && c <= '\u{24b5}') || ('\u{2500}' <= c && c
        <= '\u{2bff}') || ('\u{3001}' <= c && c <= '\u{3004}') || ('\u{3008}' <= c && c
        <= '\u{3020}') || ('\u{ff01}' <= c && c <= '\u{ff20}') || ('\u{1f300}' <= c && c
        <= '\u{1faff}')
}

fn cuts(text: &Vec<char>, k: usize, c: char) -> (yes: bool)
    requires
        k + 3 <= text.len(),
    ensures
        yes == may_cut(text@, k as int, c),
{
    !plain(c) && ((text[k] == 'i' && text[k + 1] == 'n' && text[k + 2] == 'g') || !sign(c))
}

fn plain(c: char) -> (yes: bool)
    ensures
        yes == is_plain(c),
{
    c <= '\u{7f}' || apostrophe(c) || c == '\u{2122}'
}

fn apostrophe(c: char) -> (yes: bool)
    ensures
        yes == is_apostrophe(c),
{
    c == '\'' || c == '\u{2018}' || c == '\u{2019}'
}

fn no_cut_word(text: &Vec<char>) -> (yes: bool)
    ensures
        yes == (forall|k: int| 0 <= k < text@.len() ==> !#[trigger] is_cut(text@, k)),
{
    let mut k: usize = 0;
    while k < text.len()
        invariant
            k <= text.len(),
            forall|l: int| 0 <= l < k ==> !#[trigger] is_cut(text@, l),
        decreases text.len() - k,
    {
        let cut: bool = ends_ing(text, k) && ((k >= 1 && cuts(text, k, text[k - 1])) || (k >= 2
            && apostrophe(text[k - 1]) && cuts(text, k, text[k - 2]) && !letter(text[k - 2])));
        if cut {
            assert(is_cut(text@, k as int));
            return false;
        }
        k += 1;
    }
    true
}

fn ends_ing(text: &Vec<char>, k: usize) -> (yes: bool)
    requires
        k < text.len(),
    ensures
        yes == is_ing(text@, k as int),
{
    text.len() - k >= 3 && (text[k] == 'i' || text[k] == 'I') && (text[k + 1] == 'n' || text[k + 1]
        == 'N') && (text[k + 2] == 'g' || text[k + 2] == 'G') && !(text.len() - k > 3 && 'a'
        <= text[k + 3] && text[k + 3] <= 'z')
}

/// Whether `misaki-rs` can read a text.
pub fn readable(text: &str) -> (yes: bool)
    ensures
        yes == is_readable(text@),
{
    let words = unmark(&text::chars_of(text));
    short_runs(&words) && no_cut_word(&words)
}

/// The phonemes that `misaki-rs` gives a text in American English, or the text of its error.
pub uninterp spec fn misaki_ipa(text: Seq<char>) -> Result<Seq<char>, Seq<char>>;

/// Phonemizes a text with `misaki-rs`.
///
/// Calls `misaki_rs::G2P::g2p` on a `G2P` for American English. Claims that the phonemes, or the
/// error's text, depend on the text alone: the dictionaries and models are compiled in. What it
/// cannot read is left out.
#[verifier::external_body]
pub(crate) fn misaki_g2p(text: &str) -> (ipa: Result<String, String>)
    requires
        is_readable(text@),
    ensures
        match (ipa, misaki_ipa(text@)) {
            (Ok(phonemes), Ok(expected)) => phonemes@ == expected,
            (Err(e), Err(expected)) => e@ == expected,
            _ => false,
        },
{
    match misaki_rs::G2P::new(misaki_rs::Language::EnglishUS).g2p(text) {
        Ok((phonemes, _)) => Ok(phonemes),
        Err(e) => Err(e.to_string()),
    }
}

proof fn unmarking_keeps_ascii(text: Seq<char>, p: int)
    requires
        0 <= p,
        forall|i: int| 0 <= i < text.len() ==> #[trigger] text[i] <= '\u{7f}',
    ensures
        unmarked(text, p).len() <= text.len(),
        p <= text.len() ==> unmarked(text, p).len() <= text.len() - p,
        forall|i: int| 0 <= i < unmarked(text, p).len() ==> #[trigger] unmarked(text, p)[i]
            <= '\u{7f}',
    decreases text.len() - p,
{
    if p < text.len() {
        if is_marker(text, p) {
            unmarking_keeps_ascii(text, marker_end(text, p) + 1);
        } else {
            unmarking_keeps_ascii(text, p + 1);
        }
    }
}

/// Every ASCII text below the limit of a run can be read.
pub proof fn ascii_is_readable(text: Seq<char>)
    requires
        text.len() < RUN_LIMIT,
        forall|i: int| 0 <= i < text.len() ==> #[trigger] text[i] <= '\u{7f}',
    ensures
        is_readable(text),
{
    unmarking_keeps_ascii(text, 0);
    let words = unmarked(text, 0);
    assert forall|k: int| 0 <= k < words.len() implies !#[trigger] is_cut(words, k) by {
        if k >= 1 {
            assert(words[k - 1] <= '\u{7f}');
        }
        if k >= 2 {
            assert(words[k - 2] <= '\u{7f}');
        }
    }
}

} // verus!
