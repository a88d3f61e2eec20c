//! Texts: comparison, trimming, numbers and order.
use crate::text;
use crate::text::{
    blank, chars_of, decimal, parse_number, same_text, signed_decimal, text_precedes, trim,
    white_space,
};
use vstd::prelude::*;

verus! {

/// Two texts are the same where they are as long and have the same character in each place.
pub proof fn same_texts_agree(a: &str, b: &str, same: bool, a_chars: Vec<char>, b_chars: Vec<char>)
    requires
        call_ensures(same_text, (a, b), same),
        call_ensures(chars_of, (a,), a_chars),
        call_ensures(chars_of, (b,), b_chars),
    ensures
        a_chars@ == a@,
        b_chars@ == b@,
        same <==> a@.len() == b@.len() && forall|i: int|
            0 <= i < a@.len() ==> #[trigger] a_chars@[i] == b_chars@[i],
{
    if a@.len() == b@.len() && forall|i: int|
        0 <= i < a@.len() ==> #[trigger] a_chars@[i] == b_chars@[i] {
        assert(a_chars@ =~= b_chars@);
    }
}

/// The white space of Unicode: tabulators, line and page ends, spaces of all widths and separators.
pub proof fn white_space_is_that_of_unicode(c: char, yes: bool)
    requires
        call_ensures(white_space, (c,), yes),
    ensures
        yes <==> '\t' <= c <= '\r' || c == ' ' || c == '\u{85}' || c == '\u{a0}' || c == '\u{1680}'
            || '\u{2000}' <= c <= '\u{200a}' || c == '\u{2028}' || c == '\u{2029}' || c
            == '\u{202f}' || c == '\u{205f}' || c == '\u{3000}',
{
}

/// A text is blank where each of its characters is white space; one that is not has another.
pub proof fn blank_text_is_white_space(s: &str, yes: bool) -> (at: int)
    requires
        call_ensures(blank, (s,), yes),
    ensures
        yes ==> forall|i: int, white: bool|
            0 <= i < s@.len() && #[trigger] call_ensures(white_space, (s@[i],), white) ==> white,
        !yes ==> 0 <= at < s@.len() && forall|white: bool| #[trigger]
            call_ensures(white_space, (s@[at],), white) ==> !white,
{
    if yes {
        0
    } else {
        choose|i: int| 0 <= i < s@.len() && !text::is_white_space(#[trigger] s@[i])
    }
}

proof fn start_is_trimmed(s: Seq<char>) -> (from: int)
    ensures
        0 <= from <= s.len(),
        text::trim_start(s) == s.skip(from),
        forall|i: int| 0 <= i < from ==> text::is_white_space(#[trigger] s[i]),
        from < s.len() ==> !text::is_white_space(s[from]),
    decreases s.len(),
{
    if s.len() > 0 && text::is_white_space(s[0]) {
        let rest = s.drop_first();
        let from = start_is_trimmed(rest) + 1;
        assert(rest.skip(from - 1) =~= s.skip(from));
        assert forall|i: int| 0 <= i < from implies text::is_white_space(#[trigger] s[i]) by {
            if i > 0 {
                assert(rest[i - 1] == s[i]);
            }
        }
        from
    } else {
        assert(s.skip(0) =~= s);
        0
    }
}

proof fn end_is_trimmed(s: Seq<char>) -> (to: int)
    ensures
        0 <= to <= s.len(),
        text::trim_end(s) == s.take(to),
        forall|i: int| to <= i < s.len() ==> text::is_white_space(#[trigger] s[i]),
        to > 0 ==> !text::is_white_space(s[to - 1]),
    decreases s.len(),
{
    if s.len() > 0 && text::is_white_space(s.last()) {
        let rest = s.drop_last();
        let to = end_is_trimmed(rest);
        assert(rest.take(to) =~= s.take(to));
        assert forall|i: int| to <= i < s.len() implies text::is_white_space(#[trigger] s[i]) by {
            if i < rest.len() {
                assert(rest[i] == s[i]);
            }
        }
        to
    } else {
        assert(s.take(s.len() as int) =~= s);
        s.len() as int
    }
}

/// Trimming a text keeps one piece of it: all around it is white space, and at either end of it is
/// none.
pub proof fn trimming_cuts_white_space(s: &str, t: String) -> (piece: (int, int))
    requires
        call_ensures(trim, (s,), t),
    ensures
        0 <= piece.0 <= piece.1 <= s@.len(),
        t@ == s@.subrange(piece.0, piece.1),
        forall|i: int, white: bool|
            (0 <= i < piece.0 || piece.1 <= i < s@.len()) && #[trigger] call_ensures(
                white_space,
                (s@[i],),
                white,
            ) ==> white,
        forall|white: bool|
            t@.len() > 0 && #[trigger] call_ensures(white_space, (t@[0],), white) ==> !white,
        forall|white: bool|
            t@.len() > 0 && #[trigger] call_ensures(white_space, (t@[t@.len() - 1],), white)
                ==> !white,
{
    let from = start_is_trimmed(s@);
    let rest = s@.skip(from);
    let to = end_is_trimmed(rest);
    assert(t@ =~= s@.subrange(from, from + to));
    assert forall|i: int, white: bool|
        (0 <= i < from || from + to <= i < s@.len()) && #[trigger] call_ensures(
            white_space,
            (s@[i],),
            white,
        ) implies white by {
        if i >= from + to {
            assert(rest[i - from] == s@[i]);
        }
    }
    if to > 0 {
        assert(t@[0] == s@[from]);
        assert(t@[t@.len() - 1] == rest[to - 1]);
    }
    (from, from + to)
}

/// A digit stands for itself in decimal, and a further digit follows the number before it.
pub proof fn decimal_digits_follow(n: u64, more: u64, digit: u64, t: String, longer: String)
    requires
        call_ensures(decimal, (n,), t),
        call_ensures(decimal, (more,), longer),
        digit < 10,
        more == 10 * n + digit,
    ensures
        more < 10 ==> longer@.len() == 1 && longer@[0] as int == '0' as int + more,
        more >= 10 ==> longer@.len() == t@.len() + 1 && longer@.take(t@.len() as int) == t@
            && longer@.last() as int == '0' as int + digit,
{
    if more >= 10 {
        assert(longer@.take(t@.len() as int) =~= t@);
    }
}

/// A negative number is written with a sign before its magnitude, and another without one.
pub proof fn signs_are_written(n: i32, magnitude: u64, t: String, signed: String)
    requires
        call_ensures(signed_decimal, (n,), signed),
        call_ensures(decimal, (magnitude,), t),
        magnitude == if n < 0 {
            -n
        } else {
            n as int
        },
    ensures
        signed@ == if n < 0 {
            seq!['-'] + t@
        } else {
            t@
        },
{
}

/// A number is read back from its decimal digits, up to the limit.
pub proof fn numbers_read_back(n: u64, t: String, s: &str, max: u64, read: Option<u64>)
    requires
        call_ensures(decimal, (n,), t),
        s@ == t@,
        call_ensures(parse_number, (s, max), read),
    ensures
        n <= max ==> read == Some(n),
        n > max ==> read is None,
{
    text::decimal_reads_back(n as nat);
}

/// A further digit multiplies a number by ten and counts itself. Behind nothing, or a `+` alone, it is
/// the number; behind what is no number, or one above the limit, it makes none.
pub proof fn further_digits_count(
    s: &str,
    longer: &str,
    digit: char,
    max: u64,
    read: Option<u64>,
    read_longer: Option<u64>,
)
    requires
        call_ensures(parse_number, (s, max), read),
        call_ensures(parse_number, (longer, max), read_longer),
        longer@ == s@.push(digit),
        '0' <= digit <= '9',
    ensures
        ({
            let d = digit as int - '0' as int;
            let value = match read {
                Some(v) => 10 * v + d,
                None => d,
            };
            if (read is Some || s@.len() == 0 || s@ == seq!['+']) && value <= max {
                read_longer matches Some(v) && v == value
            } else {
                read_longer is None
            }
        }),
{
    let digits = text::number_digits(s@);
    let all = text::number_digits(longer@);
    if s@.len() > 0 {
        assert(all =~= digits.push(digit));
    } else {
        assert(all =~= seq![digit]);
        assert(digits =~= Seq::empty());
    }
    assert(all.drop_last() =~= digits);
    assert(all.last() == digit);
    assert(text::is_number(longer@) ==> forall|i: int|
        0 <= i < digits.len() ==> '0' <= #[trigger] digits[i] <= '9') by {
        assert forall|i: int| text::is_number(longer@) && 0 <= i < digits.len() implies '0'
            <= #[trigger] digits[i] <= '9' by {
            assert(all[i] == digits[i]);
        }
    }
    assert(digits.len() == 0 <==> s@.len() == 0 || s@ == seq!['+']) by {
        if digits.len() == 0 && s@.len() > 0 {
            assert(s@ =~= seq!['+']);
        }
    }
    if digits.len() == 0 {
        assert(text::digits_value(digits) == 0);
    }
    assert(text::digits_value(all) == 10 * text::digits_value(digits) + (digit as int - '0' as int));
    if text::is_number(s@) || digits.len() == 0 {
        assert forall|i: int| 0 <= i < all.len() implies '0' <= #[trigger] all[i] <= '9' by {
            if i < digits.len() {
                assert(all[i] == digits[i]);
            }
        }
    }
}

/// Nothing, and what ends in another character than a digit, is no number.
pub proof fn other_texts_are_no_numbers(s: &str, max: u64, read: Option<u64>)
    requires
        call_ensures(parse_number, (s, max), read),
        s@.len() == 0 || !('0' <= s@.last() <= '9'),
    ensures
        read is None,
{
    let digits = text::number_digits(s@);
    if digits.len() > 0 {
        assert(digits.last() == s@.last());
        assert(digits[digits.len() - 1] == s@.last());
    }
}

proof fn order_is_decided(a: Seq<char>, b: Seq<char>) -> (k: int)
    ensures
        0 <= k <= a.len(),
        k <= b.len(),
        forall|i: int| 0 <= i < k ==> #[trigger] a[i] == b[i],
        text::precedes(a, b) ==> k < b.len() && (k == a.len() || a[k] < b[k]),
        !text::precedes(a, b) ==> k == b.len() || (k < a.len() && b[k] < a[k]),
    decreases a.len(),
{
    if a.len() > 0 && b.len() > 0 && a[0] == b[0] {
        let k = order_is_decided(a.drop_first(), b.drop_first()) + 1;
        assert forall|i: int| 0 <= i < k implies #[trigger] a[i] == b[i] by {
            if i > 0 {
                assert(a.drop_first()[i - 1] == b.drop_first()[i - 1]);
            }
        }
        k
    } else {
        0
    }
}

/// The first place where two texts differ decides which precedes the other: by the order of the two
/// characters there, or because a text ends there.
pub proof fn first_difference_decides(a: &str, b: &str, yes: bool) -> (k: int)
    requires
        call_ensures(text_precedes, (a, b), yes),
    ensures
        0 <= k <= a@.len(),
        k <= b@.len(),
        forall|i: int| 0 <= i < k ==> #[trigger] a@[i] == b@[i],
        yes ==> k < b@.len() && (k == a@.len() || a@[k] < b@[k]),
        !yes ==> k == b@.len() || (k < a@.len() && b@[k] < a@[k]),
{
    order_is_decided(a@, b@)
}

} // verus!
