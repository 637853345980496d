//! The `top` report: its window and its lines.
use crate::text::{align_left, align_right, integer_text, signed_text};
use vstd::prelude::*;
use vstd::string::StringExecFns;

verus! {

/// Milliseconds in a day.
pub const DAY_MS: i64 = 86_400_000;

/// The quotient of `a` by the positive `b`, rounded toward zero.
pub open spec fn quotient(a: int, b: int) -> int {
    if a >= 0 {
        a / b
    } else {
        -((-a) / b)
    }
}

/// The whole hours of a number of seconds, rounded toward zero.
pub open spec fn hours(secs: int) -> int {
    quotient(secs, 3600)
}

/// The whole minutes that a number of seconds holds beyond its whole hours,
/// rounded toward zero.
pub open spec fn minutes(secs: int) -> int {
    quotient(secs - 3600 * hours(secs), 60)
}

/// A number in at least two characters, with a leading zero where one digit
/// would stand alone.
pub open spec fn two_wide(i: int) -> Seq<char> {
    if 0 <= i < 10 {
        "0"@ + crate::text::signed_decimal(i)
    } else {
        crate::text::signed_decimal(i)
    }
}

/// Hours and minutes as the report shows them: `26h05m`.
pub open spec fn hms(secs: int) -> Seq<char> {
    crate::text::signed_decimal(hours(secs)) + "h"@ + two_wide(minutes(secs)) + "m"@
}

/// Writes a number of seconds as hours and minutes.
pub fn fmt_hms(secs: i64) -> (text: String)
    ensures
        text@ == hms(secs as int),
{
    let negative = secs < 0;
    let magnitude: u64 = if negative {
        (-(secs as i128)) as u64
    } else {
        secs as u64
    };
    let hour: u64 = magnitude / 3600;
    let minute: u64 = (magnitude % 3600) / 60;
    proof {
        let whole: int = if negative { -(secs as int) } else { secs as int };
        assert(magnitude == whole);
        assert(hours(secs as int) == if negative { -(hour as int) } else { hour as int });
        assert(minutes(secs as int) == if negative { -(minute as int) } else { minute as int });
    }
    let mut text = signed_text(negative, hour);
    text.append("h");
    if minute == 0 || (!negative && minute < 10) {
        text.append("0");
    }
    text.append(signed_text(negative, minute).as_str());
    text.append("m");
    assert(text@ =~= hms(secs as int));
    text
}

/// The start of a report over the last `days` days: spans and usage that ended
/// before it are left out.
pub fn since_ms(now_ms: i64, days: i64) -> (since: i64)
    requires
        i64::MIN <= days * DAY_MS <= i64::MAX,
        i64::MIN <= now_ms - days * DAY_MS <= i64::MAX,
    ensures
        since == now_ms - days * DAY_MS,
{
    now_ms - days * DAY_MS
}

/// The heading of the part of the report that sums the sampler's spans.
pub fn spans_heading(days: i64) -> (line: String)
    ensures
        line@ == "== active spans (sampler), last "@ + crate::text::signed_decimal(days as int)
            + "d =="@,
{
    let mut line = "== active spans (sampler), last ".to_owned();
    line.append(integer_text(days).as_str());
    line.append("d ==");
    line
}

/// The heading of the part of the report that sums Screen Time usage.
pub fn screentime_heading(days: i64) -> (line: String)
    ensures
        line@ == "== screen time (knowledgeC), last "@ + crate::text::signed_decimal(days as int)
            + "d =="@,
{
    let mut line = "== screen time (knowledgeC), last ".to_owned();
    line.append(integer_text(days).as_str());
    line.append("d ==");
    line
}

/// One app of the sampler's part: its time in a column of seven, then its name.
pub fn span_line(name: &str, secs: i64) -> (line: String)
    ensures
        line@ == crate::text::right_aligned(hms(secs as int), 7) + "  "@ + name@,
{
    let mut line = align_right(fmt_hms(secs).as_str(), 7);
    line.append("  ");
    line.append(name);
    line
}

/// One app of the Screen Time part: its time in a column of seven, its device
/// in a column of ten, then the app.
pub fn screentime_line(device: &str, value: &str, secs: i64) -> (line: String)
    ensures
        line@ == crate::text::right_aligned(hms(secs as int), 7) + "  "@
            + crate::text::left_aligned(device@, 10) + "  "@ + value@,
{
    let mut line = align_right(fmt_hms(secs).as_str(), 7);
    line.append("  ");
    line.append(align_left(device, 10).as_str());
    line.append("  ");
    line.append(value);
    line
}

/// A time that is not negative is shown as hours and, behind an `h` and before an
/// `m`, minutes in two digits; the minutes are fewer than sixty, and hours and
/// minutes together are the time, but for less than a minute.
pub proof fn law_hours_and_minutes_make_up_the_time(secs: i64, text: String)
    requires
        call_ensures(fmt_hms, (secs,), text),
        secs >= 0,
    ensures
        ({
            let end = text@.len() - 1;
            let h = crate::text::number(text@.take(end - 3));
            let m = crate::text::number(text@.subrange(end - 2, end));
            &&& end >= 4
            &&& crate::text::plain_digits(text@.take(end - 3))
            &&& text@[end - 3] == 'h'
            &&& '0' <= text@[end - 2] <= '9'
            &&& '0' <= text@[end - 1] <= '9'
            &&& text@[end] == 'm'
            &&& 0 <= h
            &&& 0 <= m < 60
            &&& 3600 * h + 60 * m <= secs < 3600 * h + 60 * m + 60
        }),
{
    let h = hours(secs as int);
    let m = minutes(secs as int);
    assert(0 <= m < 60);
    reveal_strlit("0");
    reveal_strlit("h");
    reveal_strlit("m");
    crate::text::lemma_decimal_reads(h as nat);
    let shown = seq![crate::text::digit((m / 10) as nat), crate::text::digit((m % 10) as nat)];
    reveal_with_fuel(crate::text::decimal, 2);
    reveal_with_fuel(crate::text::number, 3);
    assert(two_wide(m) =~= shown);
    let end = text@.len() - 1;
    assert(text@.take(end - 3) =~= crate::text::decimal(h as nat));
    assert(text@.subrange(end - 2, end) =~= shown);
    assert(shown.drop_last() =~= seq![crate::text::digit((m / 10) as nat)]);
    assert(shown.drop_last().drop_last() =~= Seq::<char>::empty());
    assert(crate::text::number(shown) == m);
}

/// A negative time is shown as hours and minutes that are each negative or zero
/// and together are the time, but for less than a minute.
pub proof fn law_negative_hours_and_minutes_make_up_the_time(secs: i64, text: String)
    requires
        call_ensures(fmt_hms, (secs,), text),
        secs < 0,
    ensures
        exists|h: nat, m: nat|
            {
                &&& m < 60
                &&& 3600 * h + 60 * m <= -secs < 3600 * h + 60 * m + 60
                &&& text@ == #[trigger] minus(h, "0"@) + "h"@ + #[trigger] minus(m, "00"@) + "m"@
            },
{
    let h = (-hours(secs as int)) as nat;
    let m = (-minutes(secs as int)) as nat;
    reveal_strlit("0");
    reveal_strlit("00");
    reveal_strlit("-");
    reveal_with_fuel(crate::text::decimal, 2);
    assert(m < 60);
    assert(crate::text::signed_decimal(hours(secs as int)) =~= minus(h, "0"@));
    assert(two_wide(minutes(secs as int)) =~= minus(m, "00"@));
}

/// The negative of a number, in decimal, or `zero` where that is zero.
pub open spec fn minus(n: nat, zero: Seq<char>) -> Seq<char> {
    if n == 0 {
        zero
    } else {
        "-"@ + crate::text::decimal(n)
    }
}

/// A report over the last `days` days starts that many times 24 hours ago.
pub proof fn law_a_report_reaches_back_whole_days(now_ms: i64, days: i64, since: i64)
    requires
        call_ensures(since_ms, (now_ms, days), since),
    ensures
        now_ms - since == days * (24 * 60 * 60 * 1000),
{
}

/// The headings name the days that the report covers.
pub proof fn law_headings_name_the_days(
    days: i64,
    spans: String,
    screentime: String,
    shown: String,
)
    requires
        call_ensures(spans_heading, (days,), spans),
        call_ensures(screentime_heading, (days,), screentime),
        call_ensures(integer_text, (days,), shown),
    ensures
        spans@ == "== active spans (sampler), last "@ + shown@ + "d =="@,
        screentime@ == "== screen time (knowledgeC), last "@ + shown@ + "d =="@,
{
}

/// A line of the sampler's part holds the app's time, as `fmt_hms` writes it, and
/// behind two spaces the app's name; spaces before it fill the time up to seven
/// characters.
pub proof fn law_a_span_line_holds_time_and_name(
    name: &str,
    secs: i64,
    line: String,
    time: String,
)
    requires
        call_ensures(span_line, (name, secs), line),
        call_ensures(fmt_hms, (secs,), time),
    ensures
        ({
            let pad: int = if time@.len() < 7 {
                7 - time@.len()
            } else {
                0
            };
            &&& line@.skip(pad) == time@ + "  "@ + name@
            &&& forall|i: int| 0 <= i < pad ==> #[trigger] line@[i] == ' '
        }),
{
    let pad: int = if time@.len() < 7 {
        7 - time@.len()
    } else {
        0
    };
    assert(line@.skip(pad) =~= time@ + "  "@ + name@);
}

/// A line of the Screen Time part holds the app's time, as `fmt_hms` writes it,
/// the device and the app, two spaces apart; spaces before it fill the time up
/// to seven characters, and spaces behind it the device up to ten.
pub proof fn law_a_screentime_line_holds_time_device_and_app(
    device: &str,
    value: &str,
    secs: i64,
    line: String,
    time: String,
)
    requires
        call_ensures(screentime_line, (device, value, secs), line),
        call_ensures(fmt_hms, (secs,), time),
    ensures
        ({
            let pad: int = if time@.len() < 7 {
                7 - time@.len()
            } else {
                0
            };
            let fill: int = if device@.len() < 10 {
                10 - device@.len()
            } else {
                0
            };
            let at = pad + time@.len() + 2 + device@.len();
            &&& line@.len() == at + fill + 2 + value@.len()
            &&& forall|i: int| 0 <= i < pad ==> #[trigger] line@[i] == ' '
            &&& line@.subrange(pad, at) == time@ + "  "@ + device@
            &&& forall|i: int| at <= i < at + fill ==> #[trigger] line@[i] == ' '
            &&& line@.skip(at + fill) == "  "@ + value@
        }),
{
    reveal_strlit("  ");
    let pad: int = if time@.len() < 7 {
        7 - time@.len()
    } else {
        0
    };
    let fill: int = if device@.len() < 10 {
        10 - device@.len()
    } else {
        0
    };
    let at = pad + time@.len() + 2 + device@.len();
    assert(line@.subrange(pad, at) =~= time@ + "  "@ + device@);
    assert(line@.skip(at + fill) =~= "  "@ + value@);
}

} // verus!
