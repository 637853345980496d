//! Plain text building blocks: equality, decimal numbers and padding.
use vstd::prelude::*;
use vstd::string::{StrSliceExecFns, StringExecFns};

verus! {

/// The decimal digit `d` as a character.
pub open spec fn digit(d: nat) -> char
    recommends
        d < 10,
{
    ('0' as u32 + d) as char
}

/// A natural number in decimal, without leading zeros.
pub open spec fn decimal(n: nat) -> Seq<char>
    decreases n,
{
    if n < 10 {
        seq![digit(n)]
    } else {
        decimal(n / 10).push(digit(n % 10))
    }
}

/// An integer in decimal, with a minus sign where it is negative.
pub open spec fn signed_decimal(i: int) -> Seq<char> {
    if i < 0 {
        seq!['-'] + decimal((-i) as nat)
    } else {
        decimal(i as nat)
    }
}

/// `count` spaces.
pub open spec fn spaces(count: nat) -> Seq<char> {
    Seq::new(count, |i: int| ' ')
}

/// How many characters `text` lacks to `width`.
pub open spec fn missing(text: Seq<char>, width: nat) -> nat {
    if text.len() < width {
        (width - text.len()) as nat
    } else {
        0
    }
}

/// `text` at the right of a column of `width` characters.
pub open spec fn right_aligned(text: Seq<char>, width: nat) -> Seq<char> {
    spaces(missing(text, width)) + text
}

/// `text` at the left of a column of `width` characters.
pub open spec fn left_aligned(text: Seq<char>, width: nat) -> Seq<char> {
    text + spaces(missing(text, width))
}

/// Whether two strings hold the same characters.
pub fn same_text(a: &str, b: &str) -> (same: bool)
    ensures
        same == (a@ == b@),
{
    a.to_owned() == b.to_owned()
}

/// Copies a text that may be missing.
pub fn copied(text: &Option<String>) -> (copy: Option<String>)
    ensures
        copy.deep_view() == text.deep_view(),
{
    match text {
        Some(text) => Some(text.clone()),
        None => None,
    }
}

fn digit_text(d: u64) -> (text: &'static str)
    requires
        d < 10,
    ensures
        text@ == seq![digit(d as nat)],
{
    proof {
        reveal_strlit("0");
        reveal_strlit("1");
        reveal_strlit("2");
        reveal_strlit("3");
        reveal_strlit("4");
        reveal_strlit("5");
        reveal_strlit("6");
        reveal_strlit("7");
        reveal_strlit("8");
        reveal_strlit("9");
    }
    let text = match d {
        0 => "0",
        1 => "1",
        2 => "2",
        3 => "3",
        4 => "4",
        5 => "5",
        6 => "6",
        7 => "7",
        8 => "8",
        _ => "9",
    };
    assert(text@ =~= seq![digit(d as nat)]);
    text
}

/// Writes `n` in decimal.
pub fn decimal_text(n: u64) -> (text: String)
    ensures
        text@ == decimal(n as nat),
    decreases n,
{
    if n < 10 {
        digit_text(n).to_owned()
    } else {
        let mut text = decimal_text(n / 10);
        text.append(digit_text(n % 10));
        assert(text@ =~= decimal(n as nat));
        text
    }
}

/// Writes a number of magnitude `magnitude` in decimal, below zero where
/// `negative` says so.
pub fn signed_text(negative: bool, magnitude: u64) -> (text: String)
    ensures
        text@ == signed_decimal(
            if negative {
                -(magnitude as int)
            } else {
                magnitude as int
            },
        ),
{
    if negative && magnitude > 0 {
        proof {
            reveal_strlit("-");
        }
        let mut text = "-".to_owned();
        text.append(decimal_text(magnitude).as_str());
        assert("-"@ =~= seq!['-']);
        text
    } else {
        decimal_text(magnitude)
    }
}

/// Writes `i` in decimal.
pub fn integer_text(i: i64) -> (text: String)
    ensures
        text@ == signed_decimal(i as int),
{
    if i < 0 {
        signed_text(true, (-(i as i128)) as u64)
    } else {
        signed_text(false, i as u64)
    }
}

fn spaces_text(count: usize) -> (text: String)
    ensures
        text@ == spaces(count as nat),
{
    let mut text = String::new();
    let mut written: usize = 0;
    while written < count
        invariant
            written <= count,
            text@ == spaces(written as nat),
        decreases count - written,
    {
        text.append(" ");
        written = written + 1;
        proof {
            reveal_strlit(" ");
            assert(text@ =~= spaces(written as nat));
        }
    }
    text
}

fn missing_count(text: &str, width: usize) -> (count: usize)
    ensures
        count == missing(text@, width as nat),
{
    let length: usize = text.unicode_len();
    if length < width {
        width - length
    } else {
        0
    }
}

/// Puts `text` at the right of a column of `width` characters; a longer text
/// stands as it is.
pub fn align_right(text: &str, width: usize) -> (column: String)
    ensures
        column@ == right_aligned(text@, width as nat),
{
    let mut column = spaces_text(missing_count(text, width));
    column.append(text);
    column
}

/// Puts `text` at the left of a column of `width` characters; a longer text
/// stands as it is.
pub fn align_left(text: &str, width: usize) -> (column: String)
    ensures
        column@ == left_aligned(text@, width as nat),
{
    let mut column = text.to_owned();
    column.append(spaces_text(missing_count(text, width)).as_str());
    column
}

/// The number that a row of digits reads as.
pub open spec fn number(digits: Seq<char>) -> int
    decreases digits.len(),
{
    if digits.len() == 0 {
        0
    } else {
        10 * number(digits.drop_last()) + (digits.last() as int - '0' as int)
    }
}

/// Whether a text is a number without leading zeros: digits, at least one, of
/// which the first is a zero only where it stands alone.
pub open spec fn plain_digits(text: Seq<char>) -> bool {
    &&& text.len() > 0
    &&& forall|i: int| 0 <= i < text.len() ==> '0' <= #[trigger] text[i] <= '9'
    &&& text.len() > 1 ==> text[0] != '0'
}

/// A number in decimal reads as that number, in digits alone and without leading
/// zeros.
pub proof fn law_decimal_text_reads_as_the_number(n: u64, text: String)
    requires
        call_ensures(decimal_text, (n,), text),
    ensures
        plain_digits(text@),
        number(text@) == n,
{
    lemma_decimal_reads(n as nat);
}

/// An integer in decimal is a number in digits, behind a minus sign where it is
/// negative and nowhere else.
pub proof fn law_integer_text_reads_as_the_integer(i: i64, text: String)
    requires
        call_ensures(integer_text, (i,), text),
    ensures
        i >= 0 ==> plain_digits(text@) && number(text@) == i,
        i < 0 ==> text@.len() > 0 && text@[0] == '-' && plain_digits(text@.skip(1)) && number(
            text@.skip(1),
        ) == -i,
{
    if i < 0 {
        lemma_decimal_reads((-i) as nat);
        assert(text@.skip(1) =~= decimal((-i) as nat));
    } else {
        lemma_decimal_reads(i as nat);
    }
}

/// A sign and a magnitude in decimal: a minus sign stands before the digits of a
/// magnitude other than zero where there is to be one, and nowhere else.
pub proof fn law_signed_text_reads_as_sign_and_magnitude(
    negative: bool,
    magnitude: u64,
    text: String,
)
    requires
        call_ensures(signed_text, (negative, magnitude), text),
    ensures
        !negative || magnitude == 0 ==> plain_digits(text@) && number(text@) == magnitude,
        negative && magnitude > 0 ==> text@.len() > 0 && text@[0] == '-' && plain_digits(
            text@.skip(1),
        ) && number(text@.skip(1)) == magnitude,
{
    lemma_decimal_reads(magnitude as nat);
    if negative && magnitude > 0 {
        assert(text@.skip(1) =~= decimal(magnitude as nat));
    }
}

/// A text at the right of a column ends the column, and all before it is spaces;
/// the column is as wide as it should be, or as the text where that is wider.
pub proof fn law_a_text_at_the_right_ends_its_column(text: &str, width: usize, column: String)
    requires
        call_ensures(align_right, (text, width), column),
    ensures
        column@.len() == if text@.len() < width {
            width as nat
        } else {
            text@.len()
        },
        column@.skip(column@.len() - text@.len()) == text@,
        forall|i: int| 0 <= i < column@.len() - text@.len() ==> #[trigger] column@[i] == ' ',
{
    assert(column@.skip(column@.len() - text@.len()) =~= text@);
}

/// A text at the left of a column starts the column, and all behind it is
/// spaces; the column is as wide as it should be, or as the text where that is
/// wider.
pub proof fn law_a_text_at_the_left_starts_its_column(text: &str, width: usize, column: String)
    requires
        call_ensures(align_left, (text, width), column),
    ensures
        column@.len() == if text@.len() < width {
            width as nat
        } else {
            text@.len()
        },
        column@.take(text@.len() as int) == text@,
        forall|i: int| text@.len() <= i < column@.len() ==> #[trigger] column@[i] == ' ',
{
    assert(column@.take(text@.len() as int) =~= text@);
}

/// Two texts are the same if and only if they are equally long and agree in
/// every character.
pub proof fn law_same_texts_agree_in_every_character(a: &str, b: &str, same: bool)
    requires
        call_ensures(same_text, (a, b), same),
    ensures
        same <==> a@.len() == b@.len() && forall|i: int|
            0 <= i < a@.len() ==> #[trigger] a@[i] == b@[i],
{
    if a@.len() == b@.len() && forall|i: int| 0 <= i < a@.len() ==> #[trigger] a@[i] == b@[i] {
        assert(a@ =~= b@);
    }
}

/// A natural number in decimal reads as that number.
pub proof fn lemma_decimal_reads(n: nat)
    ensures
        plain_digits(decimal(n)),
        number(decimal(n)) == n,
        n > 0 ==> decimal(n)[0] != '0',
    decreases n,
{
    reveal_with_fuel(number, 2);
    if n >= 10 {
        let front = decimal(n / 10);
        lemma_decimal_reads(n / 10);
        assert(decimal(n).drop_last() =~= front);
        assert forall|i: int| 0 <= i < decimal(n).len() implies '0' <= #[trigger] decimal(n)[i]
            <= '9' by {
            if i < front.len() {
                assert(decimal(n)[i] == front[i]);
            }
        }
        assert(decimal(n)[0] == front[0]);
    } else {
        assert(decimal(n).drop_last() =~= Seq::<char>::empty());
    }
}

} // verus!
