//! Texts of values can be read again.

use vstd::prelude::*;

use crate::delta::client;
use crate::laws::batches::element_cells;
use crate::text;
use crate::types::cell;
use crate::types::debug;
use crate::types::temporal::{fraction_text, is_date, is_time, year_text};
use crate::types::{ArrayCell, Cell, Date, Json, PgNumeric, Time, Timestamp, Uuid};

verus! {

/// The number that decimal digits stand for.
pub open spec fn number_in(digits: Seq<char>) -> int
    decreases digits.len(),
{
    if digits.len() == 0 {
        0
    } else {
        10 * number_in(digits.drop_last()) + (digits.last() as int - '0' as int)
    }
}

/// The number that a text stands for: digits, with a minus sign before a negative number.
pub open spec fn signed_number_in(text: Seq<char>) -> int {
    if text.len() > 0 && text[0] == '-' {
        -number_in(text.skip(1))
    } else {
        number_in(text)
    }
}

/// The digits of a number stand for it, and do not begin with a zero that they could go without.
pub proof fn decimals_are_read_again(n: nat)
    ensures
        number_in(text::decimal(n)) == n,
        forall|i: int|
            0 <= i < text::decimal(n).len() ==> '0' <= #[trigger] text::decimal(n)[i] <= '9',
        text::decimal(n).len() > 1 ==> text::decimal(n)[0] != '0',
        text::decimal(n).len() >= 1,
    decreases n,
{
    reveal_with_fuel(number_in, 2);
    text::decimal_has_digits(n);
    let digits = text::decimal(n);
    if n >= 10 {
        decimals_are_read_again(n / 10);
        let before = text::decimal(n / 10);
        assert(digits.drop_last() =~= before);
        assert(digits[0] == before[0]);
        if before.len() == 1 {
            assert(number_in(before.drop_last()) == 0) by {
                assert(before.drop_last() =~= Seq::empty());
            }
            assert(before.last() == before[0]);
        }
    } else {
        assert(digits.drop_last() =~= Seq::empty());
    }
    assert forall|i: int| 0 <= i < digits.len() implies '0' <= #[trigger] digits[i] <= '9' by {
        assert(text::is_digit(digits[i]));
    }
}

/// The text of a number stands for it, and is its digits but for a minus sign.
pub proof fn numbers_are_read_again(n: int)
    ensures
        signed_number_in(text::signed_decimal(n)) == n,
        n >= 0 ==> text::signed_decimal(n) == text::decimal(n as nat),
        n < 0 ==> text::signed_decimal(n) == seq!['-'] + text::decimal((-n) as nat),
{
    let magnitude: nat = if n < 0 {
        (-n) as nat
    } else {
        n as nat
    };
    decimals_are_read_again(magnitude);
    let whole = text::signed_decimal(n);
    if n < 0 {
        assert(whole[0] == '-');
        assert(whole.skip(1) =~= text::decimal(magnitude));
    } else {
        assert('0' <= whole[0] <= '9');
    }
}

/// Whether a text is made of decimal digits.
pub open spec fn are_digits(whole: Seq<char>) -> bool {
    forall|i: int| 0 <= i < whole.len() ==> '0' <= #[trigger] whole[i] <= '9'
}

/// Digits of a fixed width stand for the number, as far as the width reaches.
pub proof fn digits_are_read_again(n: nat, width: nat)
    ensures
        text::digits(n, width).len() == width,
        are_digits(text::digits(n, width)),
        n < text::ten_to(width) ==> number_in(text::digits(n, width)) == n,
    decreases width,
{
    text::digits_have_width(n, width);
    assert forall|i: int| 0 <= i < width implies '0' <= #[trigger] text::digits(n, width)[i]
        <= '9' by {
        assert(text::is_digit(text::digits(n, width)[i]));
    }
    if width > 0 {
        let fewer = (width - 1) as nat;
        digits_are_read_again(n / 10, fewer);
        assert(text::digits(n, width).drop_last() =~= text::digits(n / 10, fewer));
    }
}

/// The value of a hexadecimal digit.
pub open spec fn hex_value(c: char) -> int {
    if '0' <= c <= '9' {
        c as int - '0' as int
    } else {
        c as int - 'a' as int + 10
    }
}

/// Every byte can be read in its two hexadecimal digits.
pub proof fn bytes_are_read_again(bytes: Seq<u8>)
    ensures
        text::hex(bytes).len() == 2 * bytes.len(),
        forall|i: int|
            0 <= i < bytes.len() ==> (#[trigger] bytes[i]) as int == 16 * hex_value(
                text::hex(bytes)[2 * i],
            ) + hex_value(text::hex(bytes)[2 * i + 1]),
    decreases bytes.len(),
{
    text::hex_has_two_digits_each(bytes);
    if bytes.len() > 0 {
        let before = bytes.drop_last();
        bytes_are_read_again(before);
        assert forall|i: int| 0 <= i < bytes.len() implies (#[trigger] bytes[i]) as int == 16
            * hex_value(text::hex(bytes)[2 * i]) + hex_value(text::hex(bytes)[2 * i + 1]) by {
            if i < before.len() {
                assert(before[i] == bytes[i]);
                assert(text::hex(bytes)[2 * i] == text::hex(before)[2 * i]);
                assert(text::hex(bytes)[2 * i + 1] == text::hex(before)[2 * i + 1]);
            } else {
                let last = bytes.last() as nat;
                assert(text::hex(bytes)[2 * i] == text::hex_digit(last / 16));
                assert(text::hex(bytes)[2 * i + 1] == text::hex_digit(last));
            }
        }
    }
}

/// Doubling a character works on each part of a text by itself.
pub proof fn characters_are_doubled_one_by_one(left: Seq<char>, right: Seq<char>, c: char, d: char)
    ensures
        text::doubled(left + right, c) == text::doubled(left, c) + text::doubled(right, c),
        text::doubled(seq![c], c) == seq![c, c],
        d != c ==> text::doubled(seq![d], c) == seq![d],
        text::doubled(Seq::empty(), c) == Seq::<char>::empty(),
    decreases right.len(),
{
    reveal_with_fuel(text::doubled, 2);
    assert(seq![c].drop_last() =~= Seq::empty());
    assert(seq![d].drop_last() =~= Seq::empty());
    assert(text::doubled(seq![c], c) =~= seq![c, c]);
    if d != c {
        assert(text::doubled(seq![d], c) =~= seq![d]);
    }
    if right.len() == 0 {
        assert(left + right =~= left);
        assert(text::doubled(left, c) + text::doubled(right, c) =~= text::doubled(left, c));
    } else {
        characters_are_doubled_one_by_one(left, right.drop_last(), c, d);
        assert((left + right).drop_last() =~= left + right.drop_last());
        assert((left + right).last() == right.last());
        assert(text::doubled(left + right, c) =~= text::doubled(left, c) + text::doubled(
            right,
            c,
        ));
    }
}

/// Joined parts are the first part, the separator, and the other parts joined.
pub proof fn parts_are_joined_from_the_first(
    first: Seq<char>,
    others: Seq<Seq<char>>,
    separator: Seq<char>,
)
    ensures
        text::joined(Seq::empty(), separator) == Seq::<char>::empty(),
        text::joined(seq![first], separator) == first,
        others.len() > 0 ==> text::joined(seq![first] + others, separator) == first + separator
            + text::joined(others, separator),
    decreases others.len(),
{
    if others.len() > 0 {
        let parts = seq![first] + others;
        assert(parts.drop_last() =~= seq![first] + others.drop_last());
        assert(parts.last() == others.last());
        if others.len() == 1 {
            reveal_with_fuel(text::joined, 2);
            assert(others.drop_last() =~= Seq::empty());
            assert(seq![first] + others.drop_last() =~= seq![first]);
            assert(text::joined(parts, separator) =~= first + separator + text::joined(
                others,
                separator,
            ));
        } else {
            let before = others.drop_last();
            parts_are_joined_from_the_first(first, before, separator);
            assert(text::joined(parts, separator) == text::joined(seq![first] + before, separator)
                + separator + others.last());
            assert(text::joined(others, separator) == text::joined(before, separator) + separator
                + others.last());
            assert(text::joined(parts, separator) =~= first + separator + text::joined(
                others,
                separator,
            ));
        }
    }
}

/// The words for the truth values.
pub proof fn truth_values_have_their_words(b: bool)
    ensures
        text::bool_word(b) == "true"@ <==> b,
        text::bool_word(b) == "false"@ <==> !b,
{
    reveal_strlit("true");
    reveal_strlit("false");
    assert("true"@.len() != "false"@.len());
}

/// The year, the month and the day can be read in the text of a date.
pub proof fn dates_are_read_again(date: Date)
    requires
        is_date(date.year(), date.month(), date.day()),
    ensures
        ({
            let whole = date.text();
            let n = whole.len();
            &&& n >= 10
            &&& whole[n - 6] == '-' && whole[n - 3] == '-'
            &&& are_digits(whole.subrange(n - 5, n - 3))
            &&& are_digits(whole.subrange(n - 2, n as int))
            &&& number_in(whole.subrange(n - 5, n - 3)) == date.month()
            &&& number_in(whole.subrange(n - 2, n as int)) == date.day()
            &&& 0 <= date.year() <= 9999 ==> are_digits(whole.take(4))
            &&& !(0 <= date.year() <= 9999) ==> n >= 11 && are_digits(whole.subrange(1, n - 6))
            &&& !(-9999 <= date.year() <= 9999) ==> whole[1] != '0'
            &&& -9999 <= date.year() < 0 ==> n == 11
            &&& 0 <= date.year() <= 9999 ==> n == 10 && number_in(whole.take(4)) == date.year()
            &&& date.year() < 0 ==> whole[0] == '-' && number_in(whole.subrange(1, n - 6))
                == -date.year()
            &&& date.year() > 9999 ==> whole[0] == '+' && number_in(whole.subrange(1, n - 6))
                == date.year()
        }),
{
    let whole = date.text();
    let year = year_text(date.year());
    let month = text::digits(date.month() as nat, 2);
    let day = text::digits(date.day() as nat, 2);
    let magnitude: nat = if date.year() < 0 {
        (-date.year()) as nat
    } else {
        date.year() as nat
    };
    reveal_with_fuel(text::ten_to, 5);
    assert(text::ten_to(2) == 100);
    assert(text::ten_to(4) == 10000);
    digits_are_read_again(date.month() as nat, 2);
    digits_are_read_again(date.day() as nat, 2);
    digits_are_read_again(magnitude, 4);
    decimals_are_read_again(magnitude);
    if magnitude > 9999 {
        text::large_numbers_have_many_digits(magnitude);
    }
    let n = whole.len() as int;
    let y = year.len() as int;
    assert(n == y + 6);
    assert(whole.subrange(n - 5, n - 3) =~= month);
    assert(whole.subrange(n - 2, n) =~= day);
    if 0 <= date.year() <= 9999 {
        assert(whole.take(4) =~= year);
    } else {
        let rest = if magnitude <= 9999 {
            text::digits(magnitude, 4)
        } else {
            text::decimal(magnitude)
        };
        assert(whole.subrange(1, n - 6) =~= rest);
        assert(whole[0] == year[0]);
    }
}

/// The hour, the minute, the second and the fraction can be read in the text of a time. A leap
/// second is the second after 59.
pub proof fn times_are_read_again(time: Time)
    requires
        is_time(time.seconds(), time.nanos()),
    ensures
        ({
            let whole = time.text();
            let n = whole.len() as int;
            let hour = number_in(whole.take(2));
            let minute = number_in(whole.subrange(3, 5));
            let second = number_in(whole.subrange(6, 8));
            let leap: int = if time.nanos() >= 1000000000 {
                1
            } else {
                0
            };
            &&& n == 8 || n == 12 || n == 15 || n == 18
            &&& whole[2] == ':' && whole[5] == ':'
            &&& 0 <= hour < 24
            &&& 0 <= minute < 60
            &&& time.seconds() == 3600 * hour + 60 * minute + second - leap
            &&& are_digits(whole.take(2))
            &&& are_digits(whole.subrange(3, 5))
            &&& are_digits(whole.subrange(6, 8))
            &&& n > 8 ==> are_digits(whole.skip(9))
            &&& n == 8 <==> time.nanos() % 1000000000 == 0
            &&& n == 15 ==> time.nanos() % 1000000 != 0
            &&& n == 18 ==> time.nanos() % 1000 != 0
            &&& n > 8 ==> whole[8] == '.'
            &&& n == 12 ==> number_in(whole.skip(9)) * 1000000 == time.nanos() % 1000000000
            &&& n == 15 ==> number_in(whole.skip(9)) * 1000 == time.nanos() % 1000000000
            &&& n == 18 ==> number_in(whole.skip(9)) == time.nanos() % 1000000000
        }),
{
    let whole = time.text();
    let leap: int = if time.nanos() >= 1000000000 {
        1
    } else {
        0
    };
    let a = time.seconds();
    let hour = text::digits((a / 3600) as nat, 2);
    let minute = text::digits((a / 60 % 60) as nat, 2);
    let second = text::digits((a % 60 + leap) as nat, 2);
    let nanos = (time.nanos() % 1000000000) as nat;
    let fraction = fraction_text(nanos);
    reveal_with_fuel(text::ten_to, 10);
    assert(text::ten_to(2) == 100);
    assert(text::ten_to(3) == 1000);
    assert(text::ten_to(6) == 1000000);
    assert(text::ten_to(9) == 1000000000);
    digits_are_read_again((a / 3600) as nat, 2);
    digits_are_read_again((a / 60 % 60) as nat, 2);
    digits_are_read_again((a % 60 + leap) as nat, 2);
    digits_are_read_again(nanos / 1000000, 3);
    digits_are_read_again(nanos / 1000, 6);
    digits_are_read_again(nanos, 9);
    assert(whole.take(2) =~= hour);
    assert(whole.subrange(3, 5) =~= minute);
    assert(whole.subrange(6, 8) =~= second);
    assert(whole.skip(8) =~= fraction);
    assert(a / 60 / 60 == a / 3600);
    if nanos > 0 {
        assert(whole[8] == fraction[0]);
        assert(whole.skip(9) =~= fraction.skip(1));
        if nanos % 1000000 == 0 {
            assert(fraction.skip(1) =~= text::digits(nanos / 1000000, 3));
        } else if nanos % 1000 == 0 {
            assert(fraction.skip(1) =~= text::digits(nanos / 1000, 6));
        } else {
            assert(fraction.skip(1) =~= text::digits(nanos, 9));
        }
    }
}

/// Whether a text tells the value of a cell.
pub open spec fn tells(whole: Seq<char>, cell: Cell) -> bool {
    match cell {
        Cell::Null => whole == "NULL"@,
        Cell::Bool(b) => whole == if b {
            "true"@
        } else {
            "false"@
        },
        Cell::String(s) => whole == s@,
        Cell::I16(n) => whole == text::signed_decimal(n as int),
        Cell::I32(n) => whole == text::signed_decimal(n as int),
        Cell::I64(n) => whole == text::signed_decimal(n as int),
        Cell::U32(n) => whole == text::signed_decimal(n as int),
        Cell::F32(bits) => whole == cell::float32_text(bits),
        Cell::F64(bits) => whole == cell::float64_text(bits),
        Cell::Numeric(n) => whole == n.text@,
        Cell::Date(d) => whole == d.text(),
        Cell::Time(t) => whole == t.text(),
        Cell::Timestamp(ts) => whole == ts.date.text() + seq![' '] + ts.time.text(),
        Cell::TimestampTz(ts) => whole == ts.date.text() + seq![' '] + ts.time.text() + " UTC"@,
        Cell::Uuid(u) => whole == cell::uuid_text(u.bytes@),
        Cell::Json(j) => whole == j.text@,
        Cell::Bytes(bytes) => whole == "\\x"@ + text::hex(bytes@),
        Cell::Array(_) => whole == "[ARRAY]"@,
    }
}

/// The text of a value within a key tells the value. Of a list it tells no more than that it is
/// one.
pub proof fn key_texts_tell_their_values(cell: Cell)
    ensures
        tells(client::key_text(cell), cell),
{
}

/// The name of the kind of a list.
pub open spec fn kind_of(list: ArrayCell) -> Seq<char> {
    match list {
        ArrayCell::Bool(_) => "Bool"@,
        ArrayCell::String(_) => "String"@,
        ArrayCell::I16(_) => "I16"@,
        ArrayCell::I32(_) => "I32"@,
        ArrayCell::U32(_) => "U32"@,
        ArrayCell::I64(_) => "I64"@,
        ArrayCell::F32(_) => "F32"@,
        ArrayCell::F64(_) => "F64"@,
        ArrayCell::Numeric(_) => "Numeric"@,
        ArrayCell::Date(_) => "Date"@,
        ArrayCell::Time(_) => "Time"@,
        ArrayCell::Timestamp(_) => "Timestamp"@,
        ArrayCell::TimestampTz(_) => "TimestampTz"@,
        ArrayCell::Uuid(_) => "Uuid"@,
        ArrayCell::Json(_) => "Json"@,
        ArrayCell::Bytes(_) => "Bytes"@,
    }
}

/// The text of a value within a list, in the form for debugging.
pub open spec fn debug_value(element: Cell) -> Seq<char> {
    match element {
        Cell::Null => Seq::empty(),
        Cell::Bool(b) => if b {
            "true"@
        } else {
            "false"@
        },
        Cell::String(s) => cell::quoted_text(s@),
        Cell::I16(n) => text::signed_decimal(n as int),
        Cell::I32(n) => text::signed_decimal(n as int),
        Cell::I64(n) => text::signed_decimal(n as int),
        Cell::U32(n) => text::signed_decimal(n as int),
        Cell::F32(bits) => cell::float32_debug_text(bits),
        Cell::F64(bits) => cell::float64_debug_text(bits),
        Cell::Numeric(n) => n.debug@,
        Cell::Date(d) => d.text(),
        Cell::Time(t) => t.text(),
        Cell::Timestamp(ts) => ts.date.text() + seq!['T'] + ts.time.text(),
        Cell::TimestampTz(ts) => ts.date.text() + seq!['T'] + ts.time.text() + "Z"@,
        Cell::Uuid(u) => cell::uuid_text(u.bytes@),
        Cell::Json(j) => j.debug@,
        Cell::Bytes(bytes) => "["@ + text::joined(
            bytes@.map_values(|b: u8| text::signed_decimal(b as int)),
            ", "@,
        ) + "]"@,
        Cell::Array(_) => Seq::empty(),
    }
}

/// The text of an element of a list, in the form for debugging: a missing element is told from one
/// that is there.
pub open spec fn debug_element(element: Cell) -> Seq<char> {
    match element {
        Cell::Null => "None"@,
        _ => "Some("@ + debug_value(element) + ")"@,
    }
}

/// The text of a list for debugging is the name of its kind and, in brackets, the texts of its
/// elements in order.
pub proof fn lists_are_told_element_by_element(list: &ArrayCell, whole: String)
    requires
        call_ensures(debug::array_debug_text, (list,), whole),
    ensures
        whole@ == kind_of(*list) + "("@ + ("["@ + text::joined(
            element_cells(*list).map_values(|element: Cell| debug_element(element)),
            ", "@,
        ) + "]"@) + ")"@,
{
    let parts = element_cells(*list).map_values(|element: Cell| debug_element(element));
    match *list {
        ArrayCell::Bool(v) => {
            assert(Seq::new(
                v@.len(),
                |i: int| debug::optional_text(v@[i], |b: bool| text::bool_word(b)),
            ) =~= parts);
        },
        ArrayCell::String(v) => {
            assert(Seq::new(
                v@.len(),
                |i: int| debug::optional_text(v@[i], |s: String| cell::quoted_text(s@)),
            ) =~= parts);
        },
        ArrayCell::I16(v) => {
            assert(Seq::new(
                v@.len(),
                |i: int| debug::optional_text(v@[i], |i: i16| text::signed_decimal(i as int)),
            ) =~= parts);
        },
        ArrayCell::I32(v) => {
            assert(Seq::new(
                v@.len(),
                |i: int| debug::optional_text(v@[i], |i: i32| text::signed_decimal(i as int)),
            ) =~= parts);
        },
        ArrayCell::U32(v) => {
            assert(Seq::new(
                v@.len(),
                |i: int| debug::optional_text(v@[i], |u: u32| text::decimal(u as nat)),
            ) =~= parts);
        },
        ArrayCell::I64(v) => {
            assert(Seq::new(
                v@.len(),
                |i: int| debug::optional_text(v@[i], |i: i64| text::signed_decimal(i as int)),
            ) =~= parts);
        },
        ArrayCell::F32(v) => {
            assert(Seq::new(
                v@.len(),
                |i: int| debug::optional_text(v@[i], |bits: u32| cell::float32_debug_text(bits)),
            ) =~= parts);
        },
        ArrayCell::F64(v) => {
            assert(Seq::new(
                v@.len(),
                |i: int| debug::optional_text(v@[i], |bits: u64| cell::float64_debug_text(bits)),
            ) =~= parts);
        },
        ArrayCell::Numeric(v) => {
            assert(Seq::new(
                v@.len(),
                |i: int| debug::optional_text(v@[i], |n: PgNumeric| n.debug@),
            ) =~= parts);
        },
        ArrayCell::Date(v) => {
            assert(Seq::new(
                v@.len(),
                |i: int| debug::optional_text(v@[i], |d: Date| d.text()),
            ) =~= parts);
        },
        ArrayCell::Time(v) => {
            assert(Seq::new(
                v@.len(),
                |i: int| debug::optional_text(v@[i], |t: Time| t.text()),
            ) =~= parts);
        },
        ArrayCell::Timestamp(v) => {
            assert(Seq::new(
                v@.len(),
                |i: int| debug::optional_text(v@[i], |ts: Timestamp| ts.text_with('T')),
            ) =~= parts);
        },
        ArrayCell::TimestampTz(v) => {
            assert(Seq::new(
                v@.len(),
                |i: int| debug::optional_text(v@[i], |ts: Timestamp| ts.text_with('T') + "Z"@),
            ) =~= parts);
        },
        ArrayCell::Uuid(v) => {
            assert(Seq::new(
                v@.len(),
                |i: int| debug::optional_text(v@[i], |u: Uuid| cell::uuid_text(u.bytes@)),
            ) =~= parts);
        },
        ArrayCell::Json(v) => {
            assert(Seq::new(
                v@.len(),
                |i: int| debug::optional_text(v@[i], |j: Json| j.debug@),
            ) =~= parts);
        },
        ArrayCell::Bytes(v) => {
            let texts = Seq::new(
                v@.len(),
                |i: int| debug::optional_text(v@[i], |b: Vec<u8>| debug::bytes_text(b@)),
            );
            assert forall|i: int| 0 <= i < v@.len() implies #[trigger] texts[i] == parts[i] by {
                if let Some(bytes) = v@[i] {
                    bytes_are_told_one_by_one(bytes@);
                }
            }
            assert(texts =~= parts);
        },
    }
}

proof fn bytes_are_told_one_by_one(bytes: Seq<u8>)
    ensures
        debug::bytes_text(bytes) == "["@ + text::joined(
            bytes.map_values(|b: u8| text::signed_decimal(b as int)),
            ", "@,
        ) + "]"@,
{
    assert(Seq::new(bytes.len(), |i: int| text::decimal(bytes[i] as nat)) =~= bytes.map_values(
        |b: u8| text::signed_decimal(b as int),
    ));
}

/// The text of raw bytes for debugging is the numbers of the bytes, in brackets.
pub proof fn bytes_are_told_by_their_numbers(bytes: &Vec<u8>, whole: String)
    requires
        call_ensures(debug::bytes_debug_text, (bytes,), whole),
    ensures
        whole@ == "["@ + text::joined(
            bytes@.map_values(|b: u8| text::signed_decimal(b as int)),
            ", "@,
        ) + "]"@,
{
    bytes_are_told_one_by_one(bytes@);
}

/// A timestamp is its date, a separator and its time.
pub proof fn timestamps_have_two_parts(timestamp: Timestamp, separator: char)
    ensures
        ({
            let whole = timestamp.text_with(separator);
            let n = timestamp.date.text().len() as int;
            &&& whole.take(n) == timestamp.date.text()
            &&& whole[n] == separator
            &&& whole.skip(n + 1) == timestamp.time.text()
        }),
{
    let whole = timestamp.text_with(separator);
    let n = timestamp.date.text().len() as int;
    assert(whole.take(n) =~= timestamp.date.text());
    assert(whole.skip(n + 1) =~= timestamp.time.text());
}

/// The bytes of an identifier can be read in its text, between hyphens.
pub proof fn identifiers_are_read_again(bytes: Seq<u8>, i: int)
    requires
        bytes.len() == 16,
        0 <= i < 16,
    ensures
        ({
            let whole = cell::uuid_text(bytes);
            let hyphens: int = if i < 4 {
                0
            } else if i < 6 {
                1
            } else if i < 8 {
                2
            } else if i < 10 {
                3
            } else {
                4
            };
            &&& whole.len() == 36
            &&& whole[8] == '-' && whole[13] == '-' && whole[18] == '-' && whole[23] == '-'
            &&& bytes[i] as int == 16 * hex_value(whole[2 * i + hyphens]) + hex_value(
                whole[2 * i + hyphens + 1],
            )
        }),
{
    let a = bytes.subrange(0, 4);
    let b = bytes.subrange(4, 6);
    let c = bytes.subrange(6, 8);
    let d = bytes.subrange(8, 10);
    let e = bytes.subrange(10, 16);
    bytes_are_read_again(a);
    bytes_are_read_again(b);
    bytes_are_read_again(c);
    bytes_are_read_again(d);
    bytes_are_read_again(e);
    let whole = cell::uuid_text(bytes);
    if i < 4 {
        assert(a[i] == bytes[i]);
        assert(whole[2 * i] == text::hex(a)[2 * i]);
        assert(whole[2 * i + 1] == text::hex(a)[2 * i + 1]);
    } else if i < 6 {
        let k = i - 4;
        assert(b[k] == bytes[i]);
        assert(whole[2 * i + 1] == text::hex(b)[2 * k]);
        assert(whole[2 * i + 2] == text::hex(b)[2 * k + 1]);
    } else if i < 8 {
        let k = i - 6;
        assert(c[k] == bytes[i]);
        assert(whole[2 * i + 2] == text::hex(c)[2 * k]);
        assert(whole[2 * i + 3] == text::hex(c)[2 * k + 1]);
    } else if i < 10 {
        let k = i - 8;
        assert(d[k] == bytes[i]);
        assert(whole[2 * i + 3] == text::hex(d)[2 * k]);
        assert(whole[2 * i + 4] == text::hex(d)[2 * k + 1]);
    } else {
        let k = i - 10;
        assert(e[k] == bytes[i]);
        assert(whole[2 * i + 4] == text::hex(e)[2 * k]);
        assert(whole[2 * i + 5] == text::hex(e)[2 * k + 1]);
    }
}

} // verus!
