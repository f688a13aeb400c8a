//! The one-line summary of a record of dispersion metrics.
//!
//! The line names the record, gives the range in decimal and shows the two
//! headline indices, Juilland's D and Carroll's D2. An index that is present
//! arrives here already rendered, as the text of its value; an absent one is
//! shown as such, so that it can never be mistaken for a zero.

use vstd::prelude::*;
use vstd::string::StringExecFns;

verus! {

/// The character of one decimal digit.
pub open spec fn digit(d: int) -> char {
    if d == 0 {
        '0'
    } else if d == 1 {
        '1'
    } else if d == 2 {
        '2'
    } else if d == 3 {
        '3'
    } else if d == 4 {
        '4'
    } else if d == 5 {
        '5'
    } else if d == 6 {
        '6'
    } else if d == 7 {
        '7'
    } else if d == 8 {
        '8'
    } else {
        '9'
    }
}

/// The decimal digits of a natural number, most significant first, without
/// leading zeros.
pub open spec fn digits(n: nat) -> Seq<char>
    decreases n,
{
    if n < 10 {
        seq![digit(n as int)]
    } else {
        digits(n / 10).push(digit((n % 10) as int))
    }
}

/// An integer in decimal: its digits, with a minus sign in front below zero.
pub open spec fn decimal(n: int) -> Seq<char> {
    if n < 0 {
        seq!['-'] + digits((-n) as nat)
    } else {
        digits(n as nat)
    }
}

/// How an index is shown: its text in `Some(..)` where it is present, `None`
/// where it is absent.
pub open spec fn shown(index: Option<Seq<char>>) -> Seq<char> {
    match index {
        Some(v) => "Some("@ + v + ")"@,
        None => "None"@,
    }
}

/// The summary line of a record with this range and these two indices.
pub open spec fn summary_text(
    range: int,
    juilland_d: Option<Seq<char>>,
    carroll_d2: Option<Seq<char>>,
) -> Seq<char> {
    "DispersionMetrics(range="@ + decimal(range) + ", juilland_d="@ + shown(juilland_d)
        + ", carroll_d2="@ + shown(carroll_d2) + ", ...)"@
}

/// The characters of a text that may be absent.
pub open spec fn text_of(text: Option<&str>) -> Option<Seq<char>> {
    match text {
        Some(s) => Some(s@),
        None => None,
    }
}

/// The text of one decimal digit.
fn digit_text(d: u32) -> (text: &'static str)
    requires
        d < 10,
    ensures
        text@ == seq![digit(d as int)],
{
    proof {
        reveal_strlit("0");
        reveal_strlit("1");
        reveal_strlit("2");
        reveal_strlit("3");
        reveal_strlit("4");
        reveal_strlit("5");
        reveal_strlit("6");
        reveal_strlit("7");
        reveal_strlit("8");
        reveal_strlit("9");
    }
    match d {
        0 => "0",
        1 => "1",
        2 => "2",
        3 => "3",
        4 => "4",
        5 => "5",
        6 => "6",
        7 => "7",
        8 => "8",
        _ => "9",
    }
}

/// Appends the digits of `n`.
fn append_digits(text: &mut String, n: u32)
    ensures
        final(text)@ == old(text)@ + digits(n as nat),
    decreases n,
{
    if n >= 10 {
        append_digits(text, n / 10);
    }
    text.append(digit_text(n % 10));
}

/// Appends `n` in decimal.
fn append_decimal(text: &mut String, n: i32)
    ensures
        final(text)@ == old(text)@ + decimal(n as int),
{
    if n < 0 {
        proof {
            reveal_strlit("-");
        }
        text.append("-");
        let magnitude: u32 = (-(n as i64)) as u32;
        append_digits(text, magnitude);
    } else {
        append_digits(text, n as u32);
    }
}

/// Appends an index as it is shown.
fn append_shown(text: &mut String, index: Option<&str>)
    ensures
        final(text)@ == old(text)@ + shown(text_of(index)),
{
    match index {
        Some(value) => {
            text.append("Some(");
            text.append(value);
            text.append(")");
        },
        None => {
            text.append("None");
        },
    }
}

/// Renders the summary line of a record: its range, and the texts of
/// Juilland's D and Carroll's D2 where they are present.
pub fn summary(range: i32, juilland_d: Option<&str>, carroll_d2: Option<&str>) -> (text: String)
    ensures
        text@ == summary_text(range as int, text_of(juilland_d), text_of(carroll_d2)),
{
    let mut text = String::from_str("DispersionMetrics(range=");
    append_decimal(&mut text, range);
    text.append(", juilland_d=");
    append_shown(&mut text, juilland_d);
    text.append(", carroll_d2=");
    append_shown(&mut text, carroll_d2);
    text.append(", ...)");
    text
}

/// The digits of a number hold at least one character and no sign.
pub proof fn lemma_digits_hold_no_sign(n: nat)
    ensures
        digits(n).len() >= 1,
        forall|i: int| 0 <= i < digits(n).len() ==> digits(n)[i] != '-',
    decreases n,
{
    if n >= 10 {
        lemma_digits_hold_no_sign(n / 10);
    }
}

/// The line begins with the name of the record and the range in decimal,
/// and a range that is not negative is written without a sign.
pub proof fn lemma_summary_begins_with_range(
    range: int,
    juilland_d: Option<Seq<char>>,
    carroll_d2: Option<Seq<char>>,
)
    ensures
        ("DispersionMetrics(range="@ + decimal(range)).is_prefix_of(
            summary_text(range, juilland_d, carroll_d2),
        ),
        range >= 0 ==> forall|i: int| 0 <= i < decimal(range).len() ==> decimal(range)[i] != '-',
{
    if range >= 0 {
        lemma_digits_hold_no_sign(range as nat);
    }
}

/// An absent index never reads like a present one, whatever the text of
/// the present one is: not like a zero, and not like an index whose text is
/// empty.
pub proof fn lemma_absent_reads_apart(value: Seq<char>)
    ensures
        shown(Some(value)) != shown(None),
{
    reveal_strlit("Some(");
    reveal_strlit("None");
    assert(shown(Some(value))[0] == 'S');
    assert(shown(None)[0] == 'N');
}

} // verus!
