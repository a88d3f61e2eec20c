//! JSON texts, read and written with `serde_json`.
use crate::text;
use vstd::prelude::*;

verus! {

/// What `serde_json::from_str` makes of a text as an object of integers: the members, the last
/// one of each name; or the text of the error.
pub uninterp spec fn vocab_json(raw: Seq<char>) -> Result<Map<Seq<char>, i64>, Seq<char>>;

/// No name occurs twice.
pub open spec fn distinct_names(entries: Seq<(String, i64)>) -> bool {
    forall|i: int, j: int|
        0 <= i < j < entries.len() ==> (#[trigger] entries[i]).0@ != (#[trigger] entries[j]).0@
}

/// An entry of the given name.
pub open spec fn is_entry(entries: Seq<(String, i64)>, name: Seq<char>, i: int) -> bool {
    0 <= i < entries.len() && entries[i].0@ == name
}

/// Entries with distinct names, as the map that they list.
pub open spec fn entry_map(entries: Seq<(String, i64)>) -> Map<Seq<char>, i64> {
    Map::new(
        |name: Seq<char>| exists|i: int| is_entry(entries, name, i),
        |name: Seq<char>| entries[choose|i: int| is_entry(entries, name, i)].1,
    )
}

/// An entry is found in the map under its name.
pub proof fn entry_is_listed(entries: Seq<(String, i64)>, i: int)
    requires
        distinct_names(entries),
        0 <= i < entries.len(),
    ensures
        entry_map(entries).contains_key(entries[i].0@),
        entry_map(entries)[entries[i].0@] == entries[i].1,
{
    let name = entries[i].0@;
    assert(is_entry(entries, name, i));
    let k = choose|k: int| is_entry(entries, name, k);
    assert(k == i);
}

/// Reads an object of integers.
///
/// Calls `serde_json::from_str` for a `BTreeMap<String, i64>`. Claims that the outcome depends on
/// the text alone, that the entries list the members of the map that was read, each name once,
/// and that a failure hands out the text of its error.
#[verifier::external_body]
pub(crate) fn parse_vocab(raw: &str) -> (parsed: Result<Vec<(String, i64)>, String>)
    ensures
        match (parsed, vocab_json(raw@)) {
            (Ok(entries), Ok(members)) => distinct_names(entries@) && entry_map(entries@)
                == members,
            (Err(e), Err(message)) => e@ == message,
            _ => false,
        },
{
    match serde_json::from_str::<std::collections::BTreeMap<String, i64>>(raw) {
        Ok(members) => Ok(members.into_iter().collect()),
        Err(e) => Err(e.to_string()),
    }
}

/// The text that `serde_json::to_string_pretty` makes of an object of integers.
pub uninterp spec fn pretty_json(members: Map<Seq<char>, i64>) -> Seq<char>;

/// Writes an object of integers over several lines.
///
/// Calls `serde_json::to_string_pretty` for a `BTreeMap<&str, i64>`. Claims that writing strings and
/// integers into memory does not fail, that the text depends on the members alone, and that it
/// reads back as the members that were written.
#[verifier::external_body]
pub(crate) fn write_vocab(entries: &Vec<(String, i64)>) -> (text: Result<String, String>)
    requires
        distinct_names(entries@),
    ensures
        match text {
            Ok(t) => t@ == pretty_json(entry_map(entries@)) && vocab_json(t@) == Ok::<
                Map<Seq<char>, i64>,
                Seq<char>,
            >(entry_map(entries@)),
            Err(_) => false,
        },
{
    let members = entries.iter().map(|(name, value)| (name.as_str(), *value));
    let members: std::collections::BTreeMap<&str, i64> = members.collect();
    match serde_json::to_string_pretty(&members) {
        Ok(text) => Ok(text),
        Err(e) => Err(e.to_string()),
    }
}

/// What `serde_json` makes of a text: the same value in compact form, or the text of the error.
pub uninterp spec fn compact_json(raw: Seq<char>) -> Result<Seq<char>, Seq<char>>;

/// A hexadecimal digit, in lower case.
pub open spec fn hex_digit(d: int) -> char
    recommends
        0 <= d < 16,
{
    if d < 10 {
        (48 + d) as char
    } else {
        (87 + d) as char
    }
}

/// A character as JSON strings hold it: quotation marks, backslashes and control characters are
/// escaped.
pub open spec fn escaped_char(c: char) -> Seq<char> {
    if c == '"' || c == '\\' {
        seq!['\\', c]
    } else if c == '\u{8}' {
        seq!['\\', 'b']
    } else if c == '\t' {
        seq!['\\', 't']
    } else if c == '\n' {
        seq!['\\', 'n']
    } else if c == '\u{c}' {
        seq!['\\', 'f']
    } else if c == '\r' {
        seq!['\\', 'r']
    } else if c <= '\u{1f}' {
        seq!['\\', 'u', '0', '0', hex_digit(c as int / 16), hex_digit(c as int % 16)]
    } else {
        seq![c]
    }
}

/// A text as JSON strings hold it.
pub open spec fn escaped(text: Seq<char>) -> Seq<char>
    decreases text.len(),
{
    if text.len() == 0 {
        Seq::empty()
    } else {
        escaped(text.drop_last()) + escaped_char(text.last())
    }
}

/// A JSON string.
pub open spec fn string_text(text: Seq<char>) -> Seq<char> {
    seq!['"'] + escaped(text) + seq!['"']
}

/// The members of a JSON object, in compact form.
pub open spec fn members_text(members: Seq<(Seq<char>, Seq<char>)>) -> Seq<char>
    decreases members.len(),
{
    if members.len() == 0 {
        Seq::empty()
    } else {
        let (name, text) = members.last();
        let before = if members.len() == 1 {
            Seq::empty()
        } else {
            members_text(members.drop_last()) + seq![',']
        };
        before + string_text(name) + seq![':'] + string_text(text)
    }
}

/// The compact form of an object whose members are strings.
pub open spec fn object_text(members: Seq<(Seq<char>, Seq<char>)>) -> Seq<char> {
    seq!['{'] + members_text(members) + seq!['}']
}

/// The names are in order, and none of them starts as the private names of `serde_json` do.
pub open spec fn has_plain_names(members: Seq<(Seq<char>, Seq<char>)>) -> bool {
    &&& forall|i: int, j: int|
        0 <= i < j < members.len() ==> text::precedes(
            (#[trigger] members[i]).0,
            (#[trigger] members[j]).0,
        )
    &&& forall|i: int|
        0 <= i < members.len() ==> (#[trigger] members[i]).0.len() > 0 && members[i].0[0] != '$'
}

/// Members by their texts.
pub open spec fn member_texts(members: Seq<(&str, &str)>) -> Seq<(Seq<char>, Seq<char>)> {
    members.map_values(|m: (&str, &str)| (m.0@, m.1@))
}

/// Brings a JSON text into compact form.
///
/// Calls `serde_json::from_str` for a `Value` and writes that value out. Claims that the outcome
/// depends on the text alone.
#[verifier::external_body]
pub(crate) fn compact(raw: &str) -> (text: Result<String, String>)
    ensures
        match (text, compact_json(raw@)) {
            (Ok(t), Ok(expected)) => t@ == expected,
            (Err(e), Err(expected)) => e@ == expected,
            _ => false,
        },
{
    match serde_json::from_str::<serde_json::Value>(raw) {
        Ok(value) => Ok(value.to_string()),
        Err(e) => Err(e.to_string()),
    }
}

/// Writes an object whose members are strings.
///
/// Writes out a `serde_json::Value::Object` of the members. Claims the text, and that it reads back as
/// the value that was written, in the same form. Members that are not in the order of their names
/// may be put in that order; and `serde_json` reads an object whose first name is private to it,
/// such as `$serde_json::private::RawValue`, as another value.
#[verifier::external_body]
pub(crate) fn object(members: &Vec<(&str, &str)>) -> (text: String)
    requires
        has_plain_names(member_texts(members@)),
    ensures
        text@ == object_text(member_texts(members@)),
        compact_json(text@) == Ok::<Seq<char>, Seq<char>>(text@),
{
    let string = |text: &str| serde_json::Value::String(text.to_owned());
    let members = members.iter().map(|(name, text)| ((*name).to_owned(), string(text)));
    serde_json::Value::Object(members.collect()).to_string()
}

} // verus!
