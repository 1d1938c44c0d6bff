//! The folder a file belongs to: the day of its creation in UTC, written
//! `YYYY.MM.DD`.

use chrono::{TimeZone, Utc};
use vstd::pervasive::unreached;
use vstd::prelude::*;

verus! {

/// The calendar date (year, month, day) in UTC of the moment that lies
/// `seconds` seconds after 1970-01-01T00:00:00Z, in the proleptic Gregorian
/// calendar as the `chrono` crate computes it; `None` where the moment lies
/// outside the years that `chrono` can represent.
pub uninterp spec fn utc_date(seconds: int) -> Option<(int, int, int)>;

/// The least year of a date.
pub open spec fn min_year() -> int {
    -262143
}

/// The greatest year of a date.
pub open spec fn max_year() -> int {
    262142
}

/// Whether year, month and day lie in the ranges of a calendar date.
pub open spec fn is_calendar_date(date: (int, int, int)) -> bool {
    &&& min_year() <= date.0 <= max_year()
    &&& 1 <= date.1 <= 12
    &&& 1 <= date.2 <= 31
}

/// The character for a digit from 0 to 9.
pub open spec fn digit(n: int) -> char {
    if n == 0 {
        '0'
    } else if n == 1 {
        '1'
    } else if n == 2 {
        '2'
    } else if n == 3 {
        '3'
    } else if n == 4 {
        '4'
    } else if n == 5 {
        '5'
    } else if n == 6 {
        '6'
    } else if n == 7 {
        '7'
    } else if n == 8 {
        '8'
    } else {
        '9'
    }
}

/// Whether a character is one of the ten digits.
pub open spec fn is_digit(c: char) -> bool {
    c == '0' || c == '1' || c == '2' || c == '3' || c == '4' || c == '5' || c == '6' || c == '7'
        || c == '8' || c == '9'
}

/// A number in decimal, without leading zeros.
pub open spec fn decimal(n: int) -> Seq<char>
    decreases n,
{
    if n < 10 {
        seq![digit(n)]
    } else {
        decimal(n / 10).push(digit(n % 10))
    }
}

/// A number below 100 in two digits.
pub open spec fn two_digits(n: int) -> Seq<char> {
    seq![digit(n / 10), digit(n % 10)]
}

/// A number in decimal, with leading zeros where it has fewer than four
/// digits.
pub open spec fn four_digits_or_more(n: int) -> Seq<char> {
    if n <= 9999 {
        seq![digit(n / 1000), digit(n / 100 % 10), digit(n / 10 % 10), digit(n % 10)]
    } else {
        decimal(n)
    }
}

/// A year as it is written in a folder name: four digits from 0 to 9999, a
/// sign and at least four digits outside that range.
pub open spec fn year_text(year: int) -> Seq<char> {
    if 0 <= year <= 9999 {
        four_digits_or_more(year)
    } else if year > 9999 {
        seq!['+'] + four_digits_or_more(year)
    } else {
        seq!['-'] + four_digits_or_more(-year)
    }
}

/// The folder name of a date: year, month and day, with a dot between them.
pub open spec fn date_text(date: (int, int, int)) -> Seq<char> {
    year_text(date.0) + seq!['.'] + two_digits(date.1) + seq!['.'] + two_digits(date.2)
}

/// Asks `chrono` for the moment `seconds` seconds after the epoch
/// (`Utc.timestamp_opt(seconds, 0).single()`) and, where there is one, formats
/// it with `%Y.%m.%d`.
///
/// Believed of `chrono`: there is a text exactly where the moment has a date;
/// that date's year, month and day lie in the ranges of a calendar date; and
/// the text is the year zero-padded to four digits (with a sign when it lies
/// outside 0 to 9999), a dot, the month in two digits, a dot, and the day in
/// two digits.
#[verifier::external_body]
fn utc_date_text(seconds: i64) -> (text: Option<String>)
    ensures
        text is Some <==> utc_date(seconds as int) is Some,
        text matches Some(name) ==> {
            &&& is_calendar_date(utc_date(seconds as int).unwrap())
            &&& name@ == date_text(utc_date(seconds as int).unwrap())
        },
{
    match Utc.timestamp_opt(seconds, 0).single() {
        Some(moment) => Some(moment.format("%Y.%m.%d").to_string()),
        None => None,
    }
}

/// The name of the folder for a file created `seconds` seconds after the
/// epoch. The moment must have a date; [`destination_folder`] takes any
/// number of seconds.
pub fn convert_sec_to_ymd(seconds: i64) -> (folder: String)
    requires
        utc_date(seconds as int) is Some,
    ensures
        is_calendar_date(utc_date(seconds as int).unwrap()),
        folder@ == date_text(utc_date(seconds as int).unwrap()),
{
    match utc_date_text(seconds) {
        Some(name) => name,
        None => unreached(),
    }
}

/// The name of the folder for a file created `seconds` seconds after the
/// epoch, or `None` where that moment has no date.
pub fn destination_folder(seconds: i64) -> (folder: Option<String>)
    ensures
        match utc_date(seconds as int) {
            Some(date) => {
                &&& is_calendar_date(date)
                &&& folder matches Some(name) && name@ == date_text(date)
            },
            None => folder is None,
        },
{
    if utc_date_text(seconds).is_some() {
        Some(convert_sec_to_ymd(seconds))
    } else {
        None
    }
}

/// A number written in decimal consists of digits, and of five or more of
/// them from 10000 on.
pub proof fn lemma_decimal_digits(n: int)
    ensures
        decimal(n).len() >= 1,
        n >= 10000 ==> decimal(n).len() >= 5,
        forall|i: int| 0 <= i < decimal(n).len() ==> is_digit(#[trigger] decimal(n)[i]),
    decreases n,
{
    if n >= 10 {
        lemma_decimal_digits(n / 10);
        if n >= 10000 {
            reveal_with_fuel(decimal, 5);
        }
    }
}

/// The shape of a year in a folder name: at least four digits, exactly four
/// from year 0 to year 9999, and a sign before them outside that range.
pub proof fn lemma_year_text_shape(year: int)
    ensures
        0 <= year <= 9999 ==> year_text(year).len() == 4 && forall|i: int|
            0 <= i < 4 ==> is_digit(#[trigger] year_text(year)[i]),
        year > 9999 ==> year_text(year).len() >= 6 && year_text(year)[0] == '+',
        year < 0 ==> year_text(year).len() >= 5 && year_text(year)[0] == '-',
        !(0 <= year <= 9999) ==> forall|i: int|
            1 <= i < year_text(year).len() ==> is_digit(#[trigger] year_text(year)[i]),
{
    if year > 9999 {
        lemma_decimal_digits(year);
        assert forall|i: int| 1 <= i < year_text(year).len() implies is_digit(
            #[trigger] year_text(year)[i],
        ) by {
            assert(year_text(year)[i] == decimal(year)[i - 1]);
        }
    } else if year < 0 {
        lemma_decimal_digits(-year);
        assert forall|i: int| 1 <= i < year_text(year).len() implies is_digit(
            #[trigger] year_text(year)[i],
        ) by {
            assert(year_text(year)[i] == four_digits_or_more(-year)[i - 1]);
        }
    }
}

/// Every folder name has the same form: the year, a dot, two digits for the
/// month, a dot, two digits for the day. From year 0 to year 9999 that is
/// `YYYY.MM.DD`, ten characters of which all but the two dots are digits.
pub proof fn lemma_date_text_format(date: (int, int, int))
    requires
        is_calendar_date(date),
    ensures
        ({
            let text = date_text(date);
            let year = year_text(date.0);
            let lead = year.len() as int;
            &&& text.len() == lead + 6
            &&& text.subrange(0, lead) == year
            &&& text[lead] == '.'
            &&& is_digit(text[lead + 1])
            &&& is_digit(text[lead + 2])
            &&& text[lead + 3] == '.'
            &&& is_digit(text[lead + 4])
            &&& is_digit(text[lead + 5])
            &&& 0 <= date.0 <= 9999 ==> {
                &&& text.len() == 10
                &&& is_digit(text[0])
                &&& is_digit(text[1])
                &&& is_digit(text[2])
                &&& is_digit(text[3])
            }
        }),
{
    let text = date_text(date);
    let year = year_text(date.0);
    let lead = year.len() as int;
    lemma_year_text_shape(date.0);
    assert(text.subrange(0, lead) =~= year);
    if 0 <= date.0 <= 9999 {
        assert(text[0] == year[0]);
        assert(text[1] == year[1]);
        assert(text[2] == year[2]);
        assert(text[3] == year[3]);
    }
}

/// Two numbers with the same decimal form are the same number.
pub proof fn lemma_decimal_injective(a: int, b: int)
    requires
        0 <= a,
        0 <= b,
        decimal(a) == decimal(b),
    ensures
        a == b,
    decreases a,
{
    lemma_decimal_digits(a / 10);
    lemma_decimal_digits(b / 10);
    assert(a < 10 ==> decimal(a).len() == 1);
    assert(b < 10 ==> decimal(b).len() == 1);
    assert(a >= 10 ==> decimal(a).len() == decimal(a / 10).len() + 1);
    assert(b >= 10 ==> decimal(b).len() == decimal(b / 10).len() + 1);
    if a >= 10 {
        assert(decimal(a).last() == digit(a % 10));
        assert(decimal(b).last() == digit(b % 10));
        assert(decimal(a).drop_last() == decimal(a / 10));
        assert(decimal(b).drop_last() == decimal(b / 10));
        lemma_decimal_injective(a / 10, b / 10);
    } else {
        assert(decimal(a)[0] == digit(a));
        assert(decimal(b)[0] == digit(b));
    }
}

/// Two numbers up to 9999 with the same four digits are the same number.
proof fn lemma_four_digits_injective(a: int, b: int)
    requires
        0 <= a <= 9999,
        0 <= b <= 9999,
        four_digits_or_more(a) == four_digits_or_more(b),
    ensures
        a == b,
{
    let x = four_digits_or_more(a);
    let y = four_digits_or_more(b);
    assert(x[0] == y[0] && x[1] == y[1] && x[2] == y[2] && x[3] == y[3]);
    assert(a / 1000 == b / 1000);
    assert(a / 100 % 10 == b / 100 % 10);
    assert(a / 10 % 10 == b / 10 % 10);
    assert(a % 10 == b % 10);
}

/// Two numbers with the same form in four digits or more are the same
/// number.
proof fn lemma_four_digits_or_more_injective(a: int, b: int)
    requires
        0 <= a,
        0 <= b,
        four_digits_or_more(a) == four_digits_or_more(b),
    ensures
        a == b,
{
    lemma_decimal_digits(a);
    lemma_decimal_digits(b);
    if a <= 9999 {
        assert(four_digits_or_more(a).len() == 4);
        assert(b <= 9999);
        lemma_four_digits_injective(a, b);
    } else {
        assert(four_digits_or_more(a).len() >= 5);
        assert(b > 9999);
        lemma_decimal_injective(a, b);
    }
}

/// Two years that are written alike are the same year.
pub proof fn lemma_year_text_injective(a: int, b: int)
    requires
        year_text(a) == year_text(b),
    ensures
        a == b,
{
    lemma_year_text_shape(a);
    lemma_year_text_shape(b);
    let text = year_text(a);
    assert(text[0] == year_text(b)[0]);
    if 0 <= a <= 9999 {
        assert(0 <= b <= 9999);
        lemma_four_digits_injective(a, b);
    } else if a > 9999 {
        assert(b > 9999);
        assert(four_digits_or_more(a) == text.subrange(1, text.len() as int));
        assert(four_digits_or_more(b) == text.subrange(1, text.len() as int));
        lemma_four_digits_or_more_injective(a, b);
    } else {
        assert(b < 0);
        assert(four_digits_or_more(-a) == text.subrange(1, text.len() as int));
        assert(four_digits_or_more(-b) == text.subrange(1, text.len() as int));
        lemma_four_digits_or_more_injective(-a, -b);
    }
}

/// Different days have different folders: two calendar dates with the same
/// folder name are the same date.
pub proof fn lemma_date_text_injective(a: (int, int, int), b: (int, int, int))
    requires
        is_calendar_date(a),
        is_calendar_date(b),
        date_text(a) == date_text(b),
    ensures
        a == b,
{
    lemma_date_text_format(a);
    lemma_date_text_format(b);
    let text = date_text(a);
    let lead = year_text(a.0).len() as int;
    assert(year_text(b.0).len() == lead);
    lemma_year_text_injective(a.0, b.0);
    assert(text[lead + 1] == digit(a.1 / 10) && text[lead + 2] == digit(a.1 % 10));
    assert(text[lead + 1] == digit(b.1 / 10) && text[lead + 2] == digit(b.1 % 10));
    assert(text[lead + 4] == digit(a.2 / 10) && text[lead + 5] == digit(a.2 % 10));
    assert(text[lead + 4] == digit(b.2 / 10) && text[lead + 5] == digit(b.2 % 10));
}

} // verus!
