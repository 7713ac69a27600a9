//! What the spelling of instants promises: one length, and an order that is time's
//! own, so that envelopes merge by the text of their `ts`.

use vstd::prelude::*;

use crate::clock::{
    date_of, days_are_numbered_in_order, field, month_days, rendered, unix_millis, Date, Instant,
};
use crate::keyed::before;
use crate::text::{decimal, digit_of, numeral, zeros};

verus! {

/// Ten to a power.
pub open spec fn ten_to(width: nat) -> nat
    decreases width,
{
    if width == 0 {
        1
    } else {
        10 * ten_to((width - 1) as nat)
    }
}

/// The last `width` digits of a number.
spec fn digits(value: nat, width: nat) -> Seq<char>
    decreases width,
{
    if width == 0 {
        seq![]
    } else {
        digits(value / 10, (width - 1) as nat).push(digit_of(value % 10))
    }
}

proof fn zero_is_zeros(width: nat)
    ensures
        digits(0, width) == zeros(width),
    decreases width,
{
    if width > 0 {
        zero_is_zeros((width - 1) as nat);
        assert(digits(0, width) =~= zeros(width));
    } else {
        assert(digits(0, width) =~= zeros(width));
    }
}

proof fn a_numeral_that_fits(value: nat, width: nat)
    requires
        width > 0,
        value < ten_to(width),
    ensures
        1 <= decimal(value).len() <= width,
        zeros((width - decimal(value).len()) as nat) + decimal(value) == digits(value, width),
    decreases width,
{
    if value < 10 {
        zero_is_zeros((width - 1) as nat);
        assert(decimal(value) =~= seq![digit_of(value)]);
        assert(value / 10 == 0);
        assert(value % 10 == value);
        assert(zeros((width - 1) as nat) + decimal(value) =~= digits(value, width));
    } else {
        assert(width > 1) by {
            if width == 1 {
                assert(ten_to(0) == 1);
                assert(ten_to(1) == 10);
            }
        }
        let fewer = (width - 1) as nat;
        assert(value / 10 < ten_to(fewer));
        a_numeral_that_fits(value / 10, fewer);
        assert(numeral(value, 10) == numeral(value / 10, 10).push(digit_of(value % 10)));
        assert(zeros((width - decimal(value).len()) as nat) + decimal(value) =~= (zeros(
            (fewer - decimal(value / 10).len()) as nat,
        ) + decimal(value / 10)).push(digit_of(value % 10)));
    }
}

proof fn a_field_is_its_digits(value: int, width: nat)
    requires
        width > 0,
        0 <= value < ten_to(width),
    ensures
        field(value, width) == digits(value as nat, width),
        field(value, width).len() == width,
{
    a_numeral_that_fits(value as nat, width);
    if decimal(value as nat).len() == width {
        assert(zeros(0) + decimal(value as nat) =~= decimal(value as nat));
    }
}

proof fn a_shared_beginning_decides_nothing(shared: Seq<char>, left: Seq<char>, right: Seq<char>)
    ensures
        before(shared + left, shared + right) == before(left, right),
    decreases shared.len(),
{
    if shared.len() == 0 {
        assert(shared + left =~= left);
        assert(shared + right =~= right);
    } else {
        let rest = shared.drop_first();
        a_shared_beginning_decides_nothing(rest, left, right);
        assert((shared + left).drop_first() =~= rest + left);
        assert((shared + right).drop_first() =~= rest + right);
        assert((shared + left)[0] == shared[0]);
        assert((shared + right)[0] == shared[0]);
    }
}

proof fn digits_are_in_order(smaller: nat, larger: nat, width: nat, left: Seq<char>, right: Seq<char>)
    requires
        smaller < larger < ten_to(width),
    ensures
        before(digits(smaller, width) + left, digits(larger, width) + right),
    decreases width,
{
    if width == 0 {
    } else {
        let fewer = (width - 1) as nat;
        let a = digit_of(smaller % 10);
        let b = digit_of(larger % 10);
        let left_rest = seq![a] + left;
        let right_rest = seq![b] + right;
        assert(digits(smaller, width) + left =~= digits(smaller / 10, fewer) + left_rest);
        assert(digits(larger, width) + right =~= digits(larger / 10, fewer) + right_rest);
        if smaller / 10 < larger / 10 {
            assert(larger / 10 < ten_to(fewer));
            digits_are_in_order(smaller / 10, larger / 10, fewer, left_rest, right_rest);
        } else {
            assert(smaller / 10 == larger / 10);
            assert(smaller % 10 < larger % 10);
            a_shared_beginning_decides_nothing(
                digits(smaller / 10, fewer),
                left_rest,
                right_rest,
            );
            assert(a as u32 == 48 + smaller % 10);
            assert(b as u32 == 48 + larger % 10);
            assert(left_rest[0] == a);
            assert(right_rest[0] == b);
        }
    }
}

/// One field, and what follows it: a smaller field comes first, and an equal one
/// decides nothing.
proof fn fields_are_in_order(u: int, v: int, width: nat, left: Seq<char>, right: Seq<char>)
    requires
        width > 0,
        0 <= u <= v < ten_to(width),
    ensures
        u < v ==> before(field(u, width) + left, field(v, width) + right),
        u == v ==> before(field(u, width) + left, field(v, width) + right) == before(left, right),
{
    a_field_is_its_digits(u, width);
    a_field_is_its_digits(v, width);
    if u < v {
        digits_are_in_order(u as nat, v as nat, width, left, right);
    } else {
        a_shared_beginning_decides_nothing(field(u, width), left, right);
    }
}

/// Every number of days after 1970-01-01 is a day of the calendar.
pub proof fn every_number_is_a_day(days: int)
    requires
        days >= 0,
    ensures
        date_of(days).exists_in_calendar(),
        date_of(days).number() == days,
    decreases days,
{
    if days == 0 {
        let first = Date { year: 1970, month: 1, day: 1 };
        reveal_with_fuel(crate::clock::days_to_month, 2);
        reveal_with_fuel(crate::clock::days_to_year, 2);
        assert(first.exists_in_calendar() && first.number() == days);
    } else {
        every_number_is_a_day(days - 1);
        let last = date_of(days - 1);
        let next = if last.day < month_days(last.year, last.month) {
            Date { year: last.year, month: last.month, day: last.day + 1 }
        } else if last.month < 12 {
            Date { year: last.year, month: last.month + 1, day: 1 }
        } else {
            Date { year: last.year + 1, month: 1, day: 1 }
        };
        if last.month == 12 {
            crate::clock::a_year_is_its_months(last.year);
            assert(crate::clock::days_to_month(last.year, 13) == crate::clock::days_to_month(
                last.year,
                12,
            ) + month_days(last.year, 12));
            assert(crate::clock::days_to_month(last.year + 1, 1) == 0);
        }
        assert(next.exists_in_calendar());
        assert(next.number() == days);
    }
}

/// Whether an instant lies in a year of four digits.
pub open spec fn of_four_digits(millis: int) -> bool {
    date_of(millis / 86_400_000).year <= 9999
}

spec fn from_millis(time: int) -> Seq<char> {
    field(time % 1_000, 3) + "Z"@
}

spec fn from_seconds(time: int) -> Seq<char> {
    field((time / 1_000) % 60, 2) + ("."@ + from_millis(time))
}

spec fn from_minutes(time: int) -> Seq<char> {
    field((time / 60_000) % 60, 2) + (":"@ + from_seconds(time))
}

spec fn clock_part(time: int) -> Seq<char> {
    field(time / 3_600_000, 2) + (":"@ + from_minutes(time))
}

spec fn date_part(date: Date, rest: Seq<char>) -> Seq<char> {
    field(date.year, 4) + ("-"@ + (field(date.month, 2) + ("-"@ + (field(date.day, 2) + (
    "T"@ + rest)))))
}

proof fn grouping(a: Seq<char>, b: Seq<char>, c: Seq<char>)
    ensures
        (a + b) + c == a + (b + c),
{
    assert((a + b) + c =~= a + (b + c));
}

proof fn rendered_in_parts(millis: int)
    ensures
        rendered(millis) == date_part(
            date_of(millis / 86_400_000),
            clock_part(millis % 86_400_000),
        ),
{
    let date = date_of(millis / 86_400_000);
    let time = millis % 86_400_000;
    let year = field(date.year, 4);
    let to_month = year + "-"@ + field(date.month, 2);
    let to_day = to_month + "-"@ + field(date.day, 2);
    let to_hour = to_day + "T"@ + field(time / 3_600_000, 2);
    let to_minute = to_hour + ":"@ + field((time / 60_000) % 60, 2);
    let to_second = to_minute + ":"@ + field((time / 1_000) % 60, 2);
    let millis_on = from_millis(time);
    let seconds_on = from_seconds(time);
    let minutes_on = from_minutes(time);
    let hours_on = clock_part(time);
    let days_on = field(date.day, 2) + ("T"@ + hours_on);
    let months_on = field(date.month, 2) + ("-"@ + days_on);
    grouping(to_second + "."@, field(time % 1_000, 3), "Z"@);
    grouping(to_second, "."@, millis_on);
    grouping(to_minute + ":"@, field((time / 1_000) % 60, 2), "."@ + millis_on);
    grouping(to_minute, ":"@, seconds_on);
    grouping(to_hour + ":"@, field((time / 60_000) % 60, 2), ":"@ + seconds_on);
    grouping(to_hour, ":"@, minutes_on);
    grouping(to_day + "T"@, field(time / 3_600_000, 2), ":"@ + minutes_on);
    grouping(to_day, "T"@, hours_on);
    grouping(to_month + "-"@, field(date.day, 2), "T"@ + hours_on);
    grouping(to_month, "-"@, days_on);
    grouping(year + "-"@, field(date.month, 2), "-"@ + days_on);
    grouping(year, "-"@, months_on);
}

/// The fields of a time of day are its digits in mixed bases: of two times, the
/// first fields that differ are in the order of the times.
proof fn fields_of_a_day(a: int, b: int)
    requires
        0 <= a < b < 86_400_000,
    ensures
        0 <= a / 3_600_000 <= b / 3_600_000 < 24,
        0 <= (a / 60_000) % 60 < 60,
        0 <= (b / 60_000) % 60 < 60,
        0 <= (a / 1_000) % 60 < 60,
        0 <= (b / 1_000) % 60 < 60,
        0 <= a % 1_000 < 1_000,
        0 <= b % 1_000 < 1_000,
        a / 3_600_000 == b / 3_600_000 ==> (a / 60_000) % 60 <= (b / 60_000) % 60,
        a / 3_600_000 == b / 3_600_000 && (a / 60_000) % 60 == (b / 60_000) % 60 ==> (a / 1_000)
            % 60 <= (b / 1_000) % 60,
        a / 3_600_000 == b / 3_600_000 && (a / 60_000) % 60 == (b / 60_000) % 60 && (a / 1_000)
            % 60 == (b / 1_000) % 60 ==> a % 1_000 < b % 1_000,
{
}

proof fn clock_parts_are_in_order(a: int, b: int)
    requires
        0 <= a < b < 86_400_000,
    ensures
        before(clock_part(a), clock_part(b)),
{
    reveal_with_fuel(ten_to, 5);
    fields_of_a_day(a, b);
    let (a_hour, b_hour) = (a / 3_600_000, b / 3_600_000);
    let (a_minute, b_minute) = ((a / 60_000) % 60, (b / 60_000) % 60);
    let (a_second, b_second) = ((a / 1_000) % 60, (b / 1_000) % 60);
    fields_are_in_order(a_hour, b_hour, 2, ":"@ + from_minutes(a), ":"@ + from_minutes(b));
    if a_hour == b_hour {
        a_shared_beginning_decides_nothing(":"@, from_minutes(a), from_minutes(b));
        fields_are_in_order(
            a_minute,
            b_minute,
            2,
            ":"@ + from_seconds(a),
            ":"@ + from_seconds(b),
        );
        if a_minute == b_minute {
            a_shared_beginning_decides_nothing(":"@, from_seconds(a), from_seconds(b));
            fields_are_in_order(
                a_second,
                b_second,
                2,
                "."@ + from_millis(a),
                "."@ + from_millis(b),
            );
            if a_second == b_second {
                a_shared_beginning_decides_nothing("."@, from_millis(a), from_millis(b));
                fields_are_in_order(a % 1_000, b % 1_000, 3, "Z"@, "Z"@);
            }
        }
    }
}

/// The text order of two spelled instants is their order in time, as long as their
/// years have four digits: envelopes merge by the text of their `ts`.
pub proof fn a_later_instant_is_spelled_later(earlier: int, later: int)
    requires
        0 <= earlier < later,
        of_four_digits(later),
    ensures
        before(rendered(earlier), rendered(later)),
{
    reveal_with_fuel(ten_to, 5);
    rendered_in_parts(earlier);
    rendered_in_parts(later);
    let a = date_of(earlier / 86_400_000);
    let b = date_of(later / 86_400_000);
    every_number_is_a_day(earlier / 86_400_000);
    every_number_is_a_day(later / 86_400_000);
    days_are_numbered_in_order(a, b);
    days_are_numbered_in_order(b, a);
    let left = clock_part(earlier % 86_400_000);
    let right = clock_part(later % 86_400_000);
    let a_day = field(a.day, 2) + ("T"@ + left);
    let b_day = field(b.day, 2) + ("T"@ + right);
    let a_month = field(a.month, 2) + ("-"@ + a_day);
    let b_month = field(b.month, 2) + ("-"@ + b_day);
    assert(a.year <= b.year);
    fields_are_in_order(a.year, b.year, 4, "-"@ + a_month, "-"@ + b_month);
    if a.year == b.year {
        a_shared_beginning_decides_nothing("-"@, a_month, b_month);
        fields_are_in_order(a.month, b.month, 2, "-"@ + a_day, "-"@ + b_day);
        if a.month == b.month {
            a_shared_beginning_decides_nothing("-"@, a_day, b_day);
            fields_are_in_order(a.day, b.day, 2, "T"@ + left, "T"@ + right);
            if a.day == b.day {
                a_shared_beginning_decides_nothing("T"@, left, right);
                clock_parts_are_in_order(earlier % 86_400_000, later % 86_400_000);
            }
        }
    }
}

/// Every instant of a year of four digits is spelled with twenty-four characters,
/// the last of them a `Z`.
pub proof fn an_instant_has_one_length(millis: int)
    requires
        0 <= millis,
        of_four_digits(millis),
    ensures
        rendered(millis).len() == 24,
        rendered(millis)[10] == 'T',
        rendered(millis).last() == 'Z',
{
    reveal_with_fuel(ten_to, 5);
    reveal_strlit("-");
    reveal_strlit("T");
    reveal_strlit(":");
    reveal_strlit(".");
    reveal_strlit("Z");
    let date = date_of(millis / 86_400_000);
    let time = millis % 86_400_000;
    every_number_is_a_day(millis / 86_400_000);
    a_field_is_its_digits(date.year, 4);
    a_field_is_its_digits(date.month, 2);
    a_field_is_its_digits(date.day, 2);
    a_field_is_its_digits(time / 3_600_000, 2);
    a_field_is_its_digits((time / 60_000) % 60, 2);
    a_field_is_its_digits((time / 1_000) % 60, 2);
    a_field_is_its_digits(time % 1_000, 3);
}

/// How long a month is: thirty days hath September, April, June and November, and all the
/// rest have thirty-one, but for February, which has twenty-eight, and twenty-nine in a
/// year that four divides and a hundred does not, or that four hundred does.
pub open spec fn month_is_long(year: int, month: int, days: int) -> bool {
    if month == 2 {
        days == if year % 400 == 0 || (year % 4 == 0 && year % 100 != 0) {
            29int
        } else {
            28
        }
    } else if month == 9 || month == 4 || month == 6 || month == 11 {
        days == 30
    } else {
        days == 31
    }
}

/// The first day there is a number for is the first of January 1970, and its number is
/// zero.
pub proof fn the_first_day_is_number_zero()
    ensures
        (Date { year: 1970, month: 1, day: 1 }).number() == 0,
        (Date { year: 1970, month: 1, day: 1 }).exists_in_calendar(),
{
    reveal_with_fuel(crate::clock::days_to_month, 2);
    reveal_with_fuel(crate::clock::days_to_year, 2);
}

/// The day after a day has the next number: the next of its month, or the first of the
/// next month, or the first of the next year.
pub proof fn the_day_after_has_the_next_number(date: Date, length: int)
    requires
        date.year >= 1970,
        1 <= date.month <= 12,
        1 <= date.day <= length,
        month_is_long(date.year, date.month, length),
    ensures
        date.exists_in_calendar(),
        date.day < length ==> (Date { day: date.day + 1, ..date }).number() == date.number() + 1,
        date.day == length && date.month < 12 ==> (Date {
            year: date.year,
            month: date.month + 1,
            day: 1,
        }).number() == date.number() + 1,
        date.day == length && date.month == 12 ==> (Date {
            year: date.year + 1,
            month: 1,
            day: 1,
        }).number() == date.number() + 1,
{
    crate::clock::a_year_is_its_months(date.year);
    reveal_with_fuel(crate::clock::days_to_month, 14);
}

/// An instant is spelled by its day and by its time of day: `YYYY-MM-DDThh:mm:ss.mmmZ`.
pub proof fn an_instant_is_spelled_by_its_day_and_time(
    at: crate::clock::Instant,
    text: String,
    date: Date,
    hours: int,
    minutes: int,
    seconds: int,
    millis: int,
)
    requires
        call_ensures(crate::clock::rfc3339, (at,), text),
        date.exists_in_calendar(),
        0 <= hours < 24,
        0 <= minutes < 60,
        0 <= seconds < 60,
        0 <= millis < 1000,
        crate::clock::millis_of(at) == date.number() * 86_400_000 + hours * 3_600_000 + minutes
            * 60_000 + seconds * 1_000 + millis,
    ensures
        text@ == crate::text::zero_padded(decimal(date.year as nat), 4) + "-"@
            + crate::text::zero_padded(decimal(date.month as nat), 2) + "-"@
            + crate::text::zero_padded(decimal(date.day as nat), 2) + "T"@
            + crate::text::zero_padded(decimal(hours as nat), 2) + ":"@
            + crate::text::zero_padded(decimal(minutes as nat), 2) + ":"@
            + crate::text::zero_padded(decimal(seconds as nat), 2) + "."@
            + crate::text::zero_padded(decimal(millis as nat), 3) + "Z"@,
{
    let whole = crate::clock::millis_of(at) as int;
    let time = hours * 3_600_000 + minutes * 60_000 + seconds * 1_000 + millis;
    a_time_of_day_is_its_parts(hours, minutes, seconds, millis);
    vstd::arithmetic::div_mod::lemma_fundamental_div_mod_converse(
        whole,
        86_400_000,
        date.number(),
        time,
    );
    crate::clock::a_day_is_known_by_its_number(date);
    assert(date_of(whole / 86_400_000) == date);
    assert(whole % 86_400_000 == time);
}

proof fn a_time_of_day_is_its_parts(hours: int, minutes: int, seconds: int, millis: int)
    requires
        0 <= hours < 24,
        0 <= minutes < 60,
        0 <= seconds < 60,
        0 <= millis < 1000,
    ensures
        ({
            let time = hours * 3_600_000 + minutes * 60_000 + seconds * 1_000 + millis;
            &&& 0 <= time < 86_400_000
            &&& time / 3_600_000 == hours
            &&& (time / 60_000) % 60 == minutes
            &&& (time / 1_000) % 60 == seconds
            &&& time % 1_000 == millis
        }),
{
    let time = hours * 3_600_000 + minutes * 60_000 + seconds * 1_000 + millis;
    vstd::arithmetic::div_mod::lemma_fundamental_div_mod_converse(
        time,
        3_600_000,
        hours,
        minutes * 60_000 + seconds * 1_000 + millis,
    );
    let whole_minutes = hours * 60 + minutes;
    vstd::arithmetic::div_mod::lemma_fundamental_div_mod_converse(
        time,
        60_000,
        whole_minutes,
        seconds * 1_000 + millis,
    );
    vstd::arithmetic::div_mod::lemma_fundamental_div_mod_converse(
        whole_minutes,
        60,
        hours,
        minutes,
    );
    let whole_seconds = whole_minutes * 60 + seconds;
    vstd::arithmetic::div_mod::lemma_fundamental_div_mod_converse(
        time,
        1_000,
        whole_seconds,
        millis,
    );
    vstd::arithmetic::div_mod::lemma_fundamental_div_mod_converse(
        whole_seconds,
        60,
        whole_minutes,
        seconds,
    );
}

/// An instant counts its own milliseconds as far as they can be counted, and none before
/// the epoch.
pub proof fn an_instant_counts_its_milliseconds(at: Instant, millis: u64)
    requires
        call_ensures(unix_millis, (at,), millis),
    ensures
        at is BeforeEpoch ==> millis == 0,
        at matches Instant::Since(since) ==> (since <= 0xffff_ffff_ffff_ffff ==> millis == since)
            && (since > 0xffff_ffff_ffff_ffff ==> millis == 0xffff_ffff_ffff_ffff),
{
}

} // verus!
