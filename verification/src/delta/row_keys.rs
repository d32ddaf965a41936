//! Rows with different primary keys have different keys.

use vstd::prelude::*;

use crate::delta::client;
use crate::delta::client::key_text;
use crate::delta::keys;
use crate::text;
use crate::types::cell;
use crate::types::schema;
use crate::types::temporal::{Date, Time, Timestamp, fraction_text, is_date, is_time, year_text};
use crate::types::{Cell, TableRow, TableSchema};

verus! {

/// Whether two dates are different days.
pub open spec fn dates_differ(left: Date, right: Date) -> bool {
    left.year() != right.year() || left.month() != right.month() || left.day() != right.day()
}

/// Whether two times of day are different.
pub open spec fn times_differ(left: Time, right: Time) -> bool {
    left.seconds() != right.seconds() || left.nanos() != right.nanos()
}

/// Whether two timestamps are different.
pub open spec fn timestamps_differ(left: Timestamp, right: Timestamp) -> bool {
    dates_differ(left.date, right.date) || times_differ(left.time, right.time)
}

/// Whether a value, if it is a date, a time or both, is one that there is.
pub open spec fn is_value(cell: Cell) -> bool {
    match cell {
        Cell::Date(d) => is_date(d.year(), d.month(), d.day()),
        Cell::Time(t) => is_time(t.seconds(), t.nanos()),
        Cell::Timestamp(ts) | Cell::TimestampTz(ts) => {
            &&& is_date(ts.date.year(), ts.date.month(), ts.date.day())
            &&& is_time(ts.time.seconds(), ts.time.nanos())
        },
        _ => true,
    }
}

/// Whether a value is present and not written as a missing value is.
pub open spec fn is_not_null(cell: Cell) -> bool {
    match cell {
        Cell::Null => false,
        Cell::String(s) => s@ != "NULL"@,
        Cell::Numeric(n) => n.text@ != "NULL"@,
        Cell::Json(j) => j.text@ != "NULL"@,
        Cell::F32(bits) => cell::float32_text(bits) != "NULL"@,
        Cell::F64(bits) => cell::float64_text(bits) != "NULL"@,
        _ => true,
    }
}

/// Whether two values of a column are different: both are present, or one of them is missing. A
/// missing value is different from every present one that is not written as `NULL`. Numbers of any
/// size, floats and JSON values are different if they are written differently. Lists are not told
/// apart.
pub open spec fn values_differ(left: Cell, right: Cell) -> bool {
    match (left, right) {
        (Cell::Null, other) => is_not_null(other),
        (other, Cell::Null) => is_not_null(other),
        (Cell::Bool(a), Cell::Bool(b)) => a != b,
        (Cell::String(a), Cell::String(b)) => a@ != b@,
        (Cell::I16(a), Cell::I16(b)) => a != b,
        (Cell::I32(a), Cell::I32(b)) => a != b,
        (Cell::I64(a), Cell::I64(b)) => a != b,
        (Cell::U32(a), Cell::U32(b)) => a != b,
        (Cell::F32(a), Cell::F32(b)) => cell::float32_text(a) != cell::float32_text(b),
        (Cell::F64(a), Cell::F64(b)) => cell::float64_text(a) != cell::float64_text(b),
        (Cell::Numeric(a), Cell::Numeric(b)) => a.text@ != b.text@,
        (Cell::Date(a), Cell::Date(b)) => dates_differ(a, b),
        (Cell::Time(a), Cell::Time(b)) => times_differ(a, b),
        (Cell::Timestamp(a), Cell::Timestamp(b)) => timestamps_differ(a, b),
        (Cell::TimestampTz(a), Cell::TimestampTz(b)) => timestamps_differ(a, b),
        (Cell::Uuid(a), Cell::Uuid(b)) => a.bytes@ != b.bytes@,
        (Cell::Json(a), Cell::Json(b)) => a.text@ != b.text@,
        (Cell::Bytes(a), Cell::Bytes(b)) => a@ != b@,
        _ => false,
    }
}

/// A year is written with at least four characters, all of them digits or signs.
proof fn year_text_has_digits(year: int)
    ensures
        year_text(year).len() >= 4,
        forall|i: int|
            0 <= i < year_text(year).len() ==> {
                let c = #[trigger] year_text(year)[i];
                text::is_digit(c) || c == '-' || c == '+'
            },
{
    let magnitude = if year < 0 {
        (-year) as nat
    } else {
        year as nat
    };
    text::digits_have_width(magnitude, 4);
    text::decimal_has_digits(magnitude);
    if magnitude > 9999 {
        text::large_numbers_have_many_digits(magnitude);
    }
    if !(0 <= year <= 9999) {
        let rest = if magnitude <= 9999 {
            text::digits(magnitude, 4)
        } else {
            text::decimal(magnitude)
        };
        assert(forall|i: int|
            1 <= i < year_text(year).len() ==> #[trigger] year_text(year)[i] == rest[i - 1]);
    }
}

/// Different years have different texts.
proof fn year_text_is_injective(left: int, right: int)
    requires
        year_text(left) == year_text(right),
    ensures
        left == right,
{
    let a = if left < 0 {
        (-left) as nat
    } else {
        left as nat
    };
    let b = if right < 0 {
        (-right) as nat
    } else {
        right as nat
    };
    reveal_with_fuel(text::ten_to, 5);
    assert(text::ten_to(4) == 10000);
    text::digits_have_width(a, 4);
    text::digits_have_width(b, 4);
    let short_left = 0 <= left <= 9999;
    let short_right = 0 <= right <= 9999;
    if short_left {
        assert(text::is_digit(year_text(left)[0]));
    } else {
        assert(!text::is_digit(year_text(left)[0]));
    }
    if short_right {
        assert(text::is_digit(year_text(right)[0]));
    } else {
        assert(!text::is_digit(year_text(right)[0]));
    }
    if short_left {
        text::digits_are_injective(a, b, 4);
    } else {
        let rest = year_text(left).skip(1);
        assert((left < 0) == (year_text(left)[0] == '-'));
        assert((right < 0) == (year_text(right)[0] == '-'));
        if a <= 9999 {
            assert(rest =~= text::digits(a, 4));
        } else {
            assert(rest =~= text::decimal(a));
            text::large_numbers_have_many_digits(a);
        }
        if b <= 9999 {
            assert(rest =~= text::digits(b, 4));
        } else {
            assert(rest =~= text::decimal(b));
            text::large_numbers_have_many_digits(b);
        }
        if a <= 9999 {
            text::digits_are_injective(a, b, 4);
        } else {
            text::decimal_is_injective(a, b);
        }
    }
}

/// The text of a date is not empty, and holds nothing but digits and signs.
proof fn date_text_has_digits(date: Date)
    ensures
        date.text().len() == year_text(date.year()).len() + 6,
        forall|i: int|
            0 <= i < date.text().len() ==> {
                let c = #[trigger] date.text()[i];
                text::is_digit(c) || c == '-' || c == '+'
            },
{
    let year = year_text(date.year());
    let month = text::digits(date.month() as nat, 2);
    let day = text::digits(date.day() as nat, 2);
    let n = year.len() as int;
    year_text_has_digits(date.year());
    text::digits_have_width(date.month() as nat, 2);
    text::digits_have_width(date.day() as nat, 2);
    assert forall|i: int| 0 <= i < date.text().len() implies {
        let c = #[trigger] date.text()[i];
        text::is_digit(c) || c == '-' || c == '+'
    } by {
        if i < n {
            assert(date.text()[i] == year[i]);
        } else if n < i < n + 3 {
            assert(date.text()[i] == month[i - n - 1]);
        } else if n + 3 < i {
            assert(date.text()[i] == day[i - n - 4]);
        }
    }
}

/// Different days have different texts.
proof fn date_text_is_injective(left: Date, right: Date)
    requires
        is_date(left.year(), left.month(), left.day()),
        is_date(right.year(), right.month(), right.day()),
        left.text() == right.text(),
    ensures
        !dates_differ(left, right),
{
    reveal_with_fuel(text::ten_to, 3);
    assert(text::ten_to(2) == 100);
    text::digits_have_width(left.month() as nat, 2);
    text::digits_have_width(left.day() as nat, 2);
    text::digits_have_width(right.month() as nat, 2);
    text::digits_have_width(right.day() as nat, 2);
    date_text_has_digits(left);
    date_text_has_digits(right);
    let whole = left.text();
    let n = year_text(left.year()).len() as int;
    assert(whole.take(n) =~= year_text(left.year()));
    assert(right.text().take(n) =~= year_text(right.year()));
    assert(whole.subrange(n + 1, n + 3) =~= text::digits(left.month() as nat, 2));
    assert(right.text().subrange(n + 1, n + 3) =~= text::digits(right.month() as nat, 2));
    assert(whole.skip(n + 4) =~= text::digits(left.day() as nat, 2));
    assert(right.text().skip(n + 4) =~= text::digits(right.day() as nat, 2));
    year_text_is_injective(left.year(), right.year());
    text::digits_are_injective(left.month() as nat, right.month() as nat, 2);
    text::digits_are_injective(left.day() as nat, right.day() as nat, 2);
}

/// Different fractions have different texts.
proof fn fraction_text_is_injective(left: nat, right: nat)
    requires
        left < 1000000000,
        right < 1000000000,
        fraction_text(left) == fraction_text(right),
    ensures
        left == right,
{
    reveal_with_fuel(text::ten_to, 10);
    assert(text::ten_to(3) == 1000);
    assert(text::ten_to(6) == 1000000);
    assert(text::ten_to(9) == 1000000000);
    text::digits_have_width(left / 1000000, 3);
    text::digits_have_width(left / 1000, 6);
    text::digits_have_width(left, 9);
    text::digits_have_width(right / 1000000, 3);
    text::digits_have_width(right / 1000, 6);
    text::digits_have_width(right, 9);
    if left > 0 && right > 0 {
        let rest = fraction_text(left).skip(1);
        if left % 1000000 == 0 {
            assert(rest =~= text::digits(left / 1000000, 3));
            assert(rest =~= text::digits(right / 1000000, 3));
            text::digits_are_injective(left / 1000000, right / 1000000, 3);
        } else if left % 1000 == 0 {
            assert(rest =~= text::digits(left / 1000, 6));
            assert(rest =~= text::digits(right / 1000, 6));
            text::digits_are_injective(left / 1000, right / 1000, 6);
        } else {
            assert(rest =~= text::digits(left, 9));
            assert(rest =~= text::digits(right, 9));
            text::digits_are_injective(left, right, 9);
        }
    }
}

/// The second that is written for a time.
spec fn written_second(time: Time) -> int {
    time.seconds() % 60 + if time.nanos() >= 1000000000 {
        1int
    } else {
        0int
    }
}

/// The text of a time by its parts.
proof fn time_text_parts(time: Time)
    ensures
        time.text().len() >= 8,
        time.text().take(2) == text::digits((time.seconds() / 3600) as nat, 2),
        time.text().subrange(3, 5) == text::digits((time.seconds() / 60 % 60) as nat, 2),
        time.text().subrange(6, 8) == text::digits(written_second(time) as nat, 2),
        time.text().skip(8) == fraction_text((time.nanos() % 1000000000) as nat),
{
    let hour = text::digits((time.seconds() / 3600) as nat, 2);
    let minute = text::digits((time.seconds() / 60 % 60) as nat, 2);
    let second = text::digits(written_second(time) as nat, 2);
    text::digits_have_width((time.seconds() / 3600) as nat, 2);
    text::digits_have_width((time.seconds() / 60 % 60) as nat, 2);
    text::digits_have_width(written_second(time) as nat, 2);
    assert(time.text().take(2) =~= hour);
    assert(time.text().subrange(3, 5) =~= minute);
    assert(time.text().subrange(6, 8) =~= second);
    assert(time.text().skip(8) =~= fraction_text((time.nanos() % 1000000000) as nat));
}

/// Different times have different texts.
proof fn time_text_is_injective(left: Time, right: Time)
    requires
        is_time(left.seconds(), left.nanos()),
        is_time(right.seconds(), right.nanos()),
        left.text() == right.text(),
    ensures
        !times_differ(left, right),
{
    reveal_with_fuel(text::ten_to, 3);
    assert(text::ten_to(2) == 100);
    time_text_parts(left);
    time_text_parts(right);
    let a = left.seconds();
    let b = right.seconds();
    text::digits_are_injective((a / 3600) as nat, (b / 3600) as nat, 2);
    text::digits_are_injective((a / 60 % 60) as nat, (b / 60 % 60) as nat, 2);
    text::digits_are_injective(written_second(left) as nat, written_second(right) as nat, 2);
    fraction_text_is_injective(
        (left.nanos() % 1000000000) as nat,
        (right.nanos() % 1000000000) as nat,
    );
    assert(a / 60 / 60 == a / 3600);
    assert(b / 60 / 60 == b / 3600);
}

/// Different timestamps have different texts.
proof fn timestamp_text_is_injective(left: Timestamp, right: Timestamp)
    requires
        is_value(Cell::Timestamp(left)),
        is_value(Cell::Timestamp(right)),
        left.text_with(' ') == right.text_with(' '),
    ensures
        !timestamps_differ(left, right),
{
    date_text_has_digits(left.date);
    date_text_has_digits(right.date);
    text::first_separator_parts(
        left.date.text(),
        right.date.text(),
        left.time.text(),
        right.time.text(),
        ' ',
    );
    date_text_is_injective(left.date, right.date);
    time_text_is_injective(left.time, right.time);
}

/// Different identifiers have different texts.
proof fn uuid_text_is_injective(left: Seq<u8>, right: Seq<u8>)
    requires
        left.len() == 16,
        right.len() == 16,
        cell::uuid_text(left) == cell::uuid_text(right),
    ensures
        left == right,
{
    uuid_text_parts(left);
    uuid_text_parts(right);
    text::hex_is_injective(left.subrange(0, 4), right.subrange(0, 4));
    text::hex_is_injective(left.subrange(4, 6), right.subrange(4, 6));
    text::hex_is_injective(left.subrange(6, 8), right.subrange(6, 8));
    text::hex_is_injective(left.subrange(8, 10), right.subrange(8, 10));
    text::hex_is_injective(left.subrange(10, 16), right.subrange(10, 16));
    grouped_bytes(left);
    grouped_bytes(right);
}

proof fn grouped_bytes(bytes: Seq<u8>)
    requires
        bytes.len() == 16,
    ensures
        bytes == bytes.subrange(0, 4) + bytes.subrange(4, 6) + bytes.subrange(6, 8)
            + bytes.subrange(8, 10) + bytes.subrange(10, 16),
{
    assert(bytes =~= bytes.subrange(0, 4) + bytes.subrange(4, 6) + bytes.subrange(6, 8)
        + bytes.subrange(8, 10) + bytes.subrange(10, 16));
}

/// The text of an identifier by its groups.
proof fn uuid_text_parts(bytes: Seq<u8>)
    requires
        bytes.len() == 16,
    ensures
        cell::uuid_text(bytes).len() == 36,
        cell::uuid_text(bytes).subrange(0, 8) == text::hex(bytes.subrange(0, 4)),
        cell::uuid_text(bytes).subrange(9, 13) == text::hex(bytes.subrange(4, 6)),
        cell::uuid_text(bytes).subrange(14, 18) == text::hex(bytes.subrange(6, 8)),
        cell::uuid_text(bytes).subrange(19, 23) == text::hex(bytes.subrange(8, 10)),
        cell::uuid_text(bytes).subrange(24, 36) == text::hex(bytes.subrange(10, 16)),
{
    let whole = cell::uuid_text(bytes);
    text::hex_has_two_digits_each(bytes.subrange(0, 4));
    text::hex_has_two_digits_each(bytes.subrange(4, 6));
    text::hex_has_two_digits_each(bytes.subrange(6, 8));
    text::hex_has_two_digits_each(bytes.subrange(8, 10));
    text::hex_has_two_digits_each(bytes.subrange(10, 16));
    assert(whole.subrange(0, 8) =~= text::hex(bytes.subrange(0, 4)));
    assert(whole.subrange(9, 13) =~= text::hex(bytes.subrange(4, 6)));
    assert(whole.subrange(14, 18) =~= text::hex(bytes.subrange(6, 8)));
    assert(whole.subrange(19, 23) =~= text::hex(bytes.subrange(8, 10)));
    assert(whole.subrange(24, 36) =~= text::hex(bytes.subrange(10, 16)));
}

/// A present value is not written as a missing one.
proof fn present_values_are_not_null(cell: Cell)
    requires
        is_value(cell),
        is_not_null(cell),
    ensures
        key_text(cell) != "NULL"@,
{
    reveal_strlit("NULL");
    let missing = "NULL"@;
    assert(missing.len() == 4);
    assert(missing[0] == 'N');
    match cell {
        Cell::Bool(_) => {
            reveal_strlit("true");
            reveal_strlit("false");
            assert("true"@[0] == 't');
        },
        Cell::I16(i) => number_is_not_null(i as int),
        Cell::I32(i) => number_is_not_null(i as int),
        Cell::I64(i) => number_is_not_null(i as int),
        Cell::U32(i) => number_is_not_null(i as int),
        Cell::Date(d) => {
            date_text_has_digits(d);
            year_text_has_digits(d.year());
        },
        Cell::Time(t) => {
            time_text_parts(t);
        },
        Cell::Timestamp(ts) => {
            date_text_has_digits(ts.date);
            year_text_has_digits(ts.date.year());
        },
        Cell::TimestampTz(ts) => {
            date_text_has_digits(ts.date);
            year_text_has_digits(ts.date.year());
        },
        Cell::Uuid(u) => {
            uuid_text_parts(u.bytes@);
        },
        Cell::Bytes(_) => {
            reveal_strlit("\\x");
            assert(key_text(cell)[0] == '\\');
        },
        Cell::Array(_) => {
            reveal_strlit("[ARRAY]");
        },
        _ => {},
    }
}

proof fn number_is_not_null(n: int)
    ensures
        text::signed_decimal(n) != "NULL"@,
{
    reveal_strlit("NULL");
    text::decimal_has_digits(if n < 0 { -n } else { n } as nat);
    let first = text::signed_decimal(n)[0];
    assert(first == '-' || text::is_digit(first));
    assert("NULL"@[0] == 'N');
}

/// Different values of a column have different texts within a key.
proof fn different_values_have_different_texts(left: Cell, right: Cell)
    requires
        is_value(left),
        is_value(right),
        values_differ(left, right),
    ensures
        key_text(left) != key_text(right),
{
    if key_text(left) == key_text(right) {
        match (left, right) {
            (Cell::Null, other) => present_values_are_not_null(other),
            (other, Cell::Null) => present_values_are_not_null(other),
            (Cell::Bool(_), Cell::Bool(_)) => {
                reveal_strlit("true");
                reveal_strlit("false");
                assert("true"@.len() != "false"@.len());
            },
            (Cell::I16(a), Cell::I16(b)) => text::signed_decimal_is_injective(a as int, b as int),
            (Cell::I32(a), Cell::I32(b)) => text::signed_decimal_is_injective(a as int, b as int),
            (Cell::I64(a), Cell::I64(b)) => text::signed_decimal_is_injective(a as int, b as int),
            (Cell::U32(a), Cell::U32(b)) => text::decimal_is_injective(a as nat, b as nat),
            (Cell::Date(a), Cell::Date(b)) => date_text_is_injective(a, b),
            (Cell::Time(a), Cell::Time(b)) => time_text_is_injective(a, b),
            (Cell::Timestamp(a), Cell::Timestamp(b)) => timestamp_text_is_injective(a, b),
            (Cell::TimestampTz(a), Cell::TimestampTz(b)) => {
                let n = key_text(left).len() - " UTC"@.len();
                assert(key_text(left).take(n) =~= a.text_with(' '));
                assert(key_text(right).take(n) =~= b.text_with(' '));
                timestamp_text_is_injective(a, b);
            },
            (Cell::Uuid(a), Cell::Uuid(b)) => uuid_text_is_injective(a.bytes@, b.bytes@),
            (Cell::Bytes(a), Cell::Bytes(b)) => {
                let n = "\\x"@.len() as int;
                assert(key_text(left).skip(n) =~= text::hex(a@));
                assert(key_text(right).skip(n) =~= text::hex(b@));
                text::hex_is_injective(a@, b@);
            },
            _ => {},
        }
    }
}

/// The texts of the key columns of a row.
pub open spec fn key_texts(row: TableRow, table: TableSchema) -> Seq<Seq<char>> {
    schema::primary_key_indices(table.column_schemas@).map_values(
        |i: int| key_text(row.values@[i]),
    )
}

/// Whether a text is not empty, and neither begins nor ends with a colon.
pub open spec fn has_plain_ends(text: Seq<char>) -> bool {
    &&& text.len() > 0
    &&& text[0] != ':'
    &&& text.last() != ':'
}

/// Whether the text of a value is not a free one: that of a text, of a number of any size, of a
/// float or of a JSON value is.
pub open spec fn has_fixed_form(cell: Cell) -> bool {
    match cell {
        Cell::String(_) | Cell::Numeric(_) | Cell::Json(_) | Cell::F32(_) | Cell::F64(_) => false,
        _ => true,
    }
}

/// A time begins and ends with a digit.
proof fn time_text_has_plain_ends(time: Time)
    ensures
        has_plain_ends(time.text()),
{
    let whole = time.text();
    let nanos = (time.nanos() % 1000000000) as nat;
    time_text_parts(time);
    text::digits_have_width((time.seconds() / 3600) as nat, 2);
    text::digits_have_width(written_second(time) as nat, 2);
    text::digits_have_width(nanos / 1000000, 3);
    text::digits_have_width(nanos / 1000, 6);
    text::digits_have_width(nanos, 9);
    assert(whole.take(2)[0] == whole[0]);
    if nanos == 0 {
        assert(whole.skip(8).len() == whole.len() - 8);
        assert(whole.subrange(6, 8)[1] == whole[7]);
    } else {
        let fraction = whole.skip(8);
        assert(fraction.last() == whole.last());
        assert(text::is_digit(fraction.last()));
    }
}

/// A date begins and ends with something other than a colon.
proof fn date_text_has_plain_ends(date: Date)
    ensures
        has_plain_ends(date.text()),
{
    year_text_has_digits(date.year());
    date_text_has_digits(date);
}

/// A value whose text has a fixed form neither begins nor ends with a colon.
proof fn fixed_forms_have_plain_ends(cell: Cell)
    requires
        is_value(cell),
        has_fixed_form(cell),
    ensures
        has_plain_ends(key_text(cell)),
{
    let whole = key_text(cell);
    match cell {
        Cell::Null => {
            reveal_strlit("NULL");
        },
        Cell::Bool(_) => {
            reveal_strlit("true");
            reveal_strlit("false");
        },
        Cell::I16(i) => number_has_plain_ends(i as int),
        Cell::I32(i) => number_has_plain_ends(i as int),
        Cell::I64(i) => number_has_plain_ends(i as int),
        Cell::U32(i) => number_has_plain_ends(i as int),
        Cell::Date(d) => date_text_has_plain_ends(d),
        Cell::Time(t) => time_text_has_plain_ends(t),
        Cell::Timestamp(ts) => {
            date_text_has_plain_ends(ts.date);
            time_text_has_plain_ends(ts.time);
            assert(whole[0] == ts.date.text()[0]);
            assert(whole.last() == ts.time.text().last());
        },
        Cell::TimestampTz(ts) => {
            reveal_strlit(" UTC");
            date_text_has_plain_ends(ts.date);
            assert(whole[0] == ts.date.text()[0]);
            assert(whole.last() == 'C');
        },
        Cell::Uuid(u) => {
            uuid_text_parts(u.bytes@);
            text::hex_has_two_digits_each(u.bytes@.subrange(0, 4));
            text::hex_has_two_digits_each(u.bytes@.subrange(10, 16));
            assert(whole.subrange(0, 8)[0] == whole[0]);
            assert(whole.subrange(24, 36)[11] == whole.last());
        },
        Cell::Bytes(b) => {
            reveal_strlit("\\x");
            text::hex_has_two_digits_each(b@);
            assert(whole[0] == '\\');
            if b@.len() > 0 {
                assert(whole.last() == text::hex(b@).last());
            } else {
                assert(whole.last() == 'x');
            }
        },
        Cell::Array(_) => {
            reveal_strlit("[ARRAY]");
        },
        _ => {},
    }
}

proof fn number_has_plain_ends(n: int)
    ensures
        has_plain_ends(text::signed_decimal(n)),
{
    let digits = text::decimal(if n < 0 { -n } else { n } as nat);
    text::decimal_has_digits(if n < 0 { -n } else { n } as nat);
    assert(text::signed_decimal(n).last() == digits.last());
    assert(text::signed_decimal(n)[0] == '-' || text::signed_decimal(n)[0] == digits[0]);
}

/// The parts of a composite key can be told from it if every part has a fixed form, or is not empty
/// and neither begins nor ends with a colon.
pub proof fn plain_keys_are_recoverable(row: TableRow, table: TableSchema)
    requires
        forall|column: int|
            0 <= column < table.column_schemas@.len() && (
            #[trigger] table.column_schemas@[column]).primary ==> {
                let cell = row.values@[column];
                is_value(cell) && (has_fixed_form(cell) || has_plain_ends(key_text(cell)))
            },
    ensures
        keys::is_recoverable(key_texts(row, table)),
        keys::can_be_told(key_texts(row, table)),
{
    let columns = table.column_schemas@;
    let indices = schema::primary_key_indices(columns);
    let parts = key_texts(row, table);
    schema::primary_key_indices_are_columns(columns);
    assert forall|k: int| 0 <= k < parts.len() implies has_plain_ends(#[trigger] parts[k]) by {
        assert(columns[indices[k]].primary);
        let cell = row.values@[indices[k]];
        if has_fixed_form(cell) {
            fixed_forms_have_plain_ends(cell);
        }
    }
}

/// Rows of a table that differ in a primary key column have different primary keys, if those key
/// columns in which their texts may differ can be told apart. They are the key columns from `start`
/// to before `end`.
pub proof fn stretches_of_columns_tell_keys(
    left: TableRow,
    right: TableRow,
    table: TableSchema,
    column: int,
    start: int,
    end: int,
)
    requires
        0 <= column < table.column_schemas@.len(),
        table.column_schemas@[column].primary,
        left.values@.len() >= table.column_schemas@.len(),
        right.values@.len() >= table.column_schemas@.len(),
        is_value(left.values@[column]),
        is_value(right.values@[column]),
        values_differ(left.values@[column], right.values@[column]),
        0 <= start <= end <= schema::primary_key_indices(table.column_schemas@).len(),
        forall|k: int|
            0 <= k < schema::primary_key_indices(table.column_schemas@).len() && !(start <= k < end)
                ==> #[trigger] key_texts(left, table)[k] == key_texts(right, table)[k],
        keys::can_be_told_apart(
            key_texts(left, table).subrange(start, end),
            key_texts(right, table).subrange(start, end),
        ),
    ensures
        client::primary_key(left, table) is Ok,
        client::primary_key(right, table) is Ok,
        client::primary_key(left, table) != client::primary_key(right, table),
{
    let columns = table.column_schemas@;
    let indices = schema::primary_key_indices(columns);
    schema::primary_key_indices_are_columns(columns);
    let k = schema::primary_column_has_index(columns, column);
    different_values_have_different_texts(left.values@[column], right.values@[column]);
    assert(key_texts(left, table)[k] != key_texts(right, table)[k]);
    if indices.len() > 1 {
        keys::stretches_tell_keys(key_texts(left, table), key_texts(right, table), start, end);
    } else {
        assert(indices[0] == column);
    }
}

/// Rows of a table that differ in a primary key column have different primary keys, if the parts of
/// keys of several columns can be told apart.
pub proof fn different_rows_have_different_keys(
    left: TableRow,
    right: TableRow,
    table: TableSchema,
    column: int,
)
    requires
        0 <= column < table.column_schemas@.len(),
        table.column_schemas@[column].primary,
        left.values@.len() >= table.column_schemas@.len(),
        right.values@.len() >= table.column_schemas@.len(),
        is_value(left.values@[column]),
        is_value(right.values@[column]),
        values_differ(left.values@[column], right.values@[column]),
        keys::can_be_told_apart(key_texts(left, table), key_texts(right, table)),
    ensures
        client::primary_key(left, table) is Ok,
        client::primary_key(right, table) is Ok,
        client::primary_key(left, table) != client::primary_key(right, table),
{
    let parts = key_texts(left, table);
    let others = key_texts(right, table);
    let n = parts.len() as int;
    assert(parts.subrange(0, n) =~= parts);
    assert(others.subrange(0, n) =~= others);
    stretches_of_columns_tell_keys(left, right, table, column, 0, n);
}

/// Rows of a table that differ in one primary key column, and are written alike in the others, have
/// different primary keys.
pub proof fn one_column_tells_keys(
    left: TableRow,
    right: TableRow,
    table: TableSchema,
    column: int,
)
    requires
        0 <= column < table.column_schemas@.len(),
        table.column_schemas@[column].primary,
        left.values@.len() >= table.column_schemas@.len(),
        right.values@.len() >= table.column_schemas@.len(),
        is_value(left.values@[column]),
        is_value(right.values@[column]),
        values_differ(left.values@[column], right.values@[column]),
        forall|i: int|
            0 <= i < table.column_schemas@.len() && i != column && (
            #[trigger] table.column_schemas@[i]).primary ==> key_text(left.values@[i]) == key_text(
                right.values@[i],
            ),
    ensures
        client::primary_key(left, table) is Ok,
        client::primary_key(right, table) is Ok,
        client::primary_key(left, table) != client::primary_key(right, table),
{
    let columns = table.column_schemas@;
    let indices = schema::primary_key_indices(columns);
    schema::primary_key_indices_are_columns(columns);
    let at = schema::primary_column_has_index(columns, column);
    assert forall|k: int| 0 <= k < indices.len() && !(at <= k < at + 1) implies (
    #[trigger] key_texts(left, table)[k]) == key_texts(right, table)[k] by {
        schema::primary_key_indices_ascend(columns, if k < at { k } else { at }, if k < at {
            at
        } else {
            k
        });
        assert(columns[indices[k]].primary);
    }
    stretches_of_columns_tell_keys(left, right, table, column, at, at + 1);
}

/// A missing value is different from every value whose text has a fixed form.
pub proof fn missing_values_differ_from_present_ones(present: Cell)
    requires
        has_fixed_form(present),
        !(present is Null),
    ensures
        values_differ(Cell::Null, present),
        values_differ(present, Cell::Null),
{
}

} // verus!
