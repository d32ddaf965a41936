//! Text building blocks: numbers, hexadecimal, joining and doubling.

use vstd::prelude::*;

verus! {

/// Specifies [`String::push`]: the character is appended to the end of the string.
pub assume_specification[ std::string::String::push ](s: &mut std::string::String, c: char)
    ensures
        final(s)@ == old(s)@.push(c),
;

/// The texts of a list of strings.
pub open spec fn texts(strings: Seq<String>) -> Seq<Seq<char>> {
    strings.map_values(|s: String| s@)
}

/// The text of a pushed string is pushed.
pub broadcast proof fn texts_of_push(strings: Seq<String>, s: String)
    ensures
        #[trigger] texts(strings.push(s)) == texts(strings).push(s@),
{
    assert(texts(strings.push(s)) =~= texts(strings).push(s@));
}

/// One more element of a sequence is the next one.
pub broadcast proof fn take_one_more<A>(s: Seq<A>, n: int)
    requires
        0 <= n < s.len(),
    ensures
        #[trigger] s.take(n + 1) == s.take(n).push(s[n]),
{
    assert(s.take(n + 1) =~= s.take(n).push(s[n]));
}

/// The decimal digit of `n`, for `n` below ten.
pub open spec fn digit(n: nat) -> char {
    (48 + n % 10) as char
}

/// `n` in decimal, without leading zeros.
pub open spec fn decimal(n: nat) -> Seq<char>
    decreases n,
{
    if n < 10 {
        seq![digit(n)]
    } else {
        decimal(n / 10).push(digit(n))
    }
}

/// `n` in decimal, with a minus sign before negative numbers.
pub open spec fn signed_decimal(n: int) -> Seq<char> {
    if n < 0 {
        seq!['-'] + decimal((-n) as nat)
    } else {
        decimal(n as nat)
    }
}

/// The last `width` decimal digits of `n`, with leading zeros.
pub open spec fn digits(n: nat, width: nat) -> Seq<char>
    decreases width,
{
    if width == 0 {
        Seq::empty()
    } else {
        digits(n / 10, (width - 1) as nat).push(digit(n))
    }
}

/// The lower case hexadecimal digit of `n`, for `n` below sixteen.
pub open spec fn hex_digit(n: nat) -> char {
    if n % 16 < 10 {
        (48 + n % 16) as char
    } else {
        (87 + n % 16) as char
    }
}

/// Two lower case hexadecimal digits for every byte.
pub open spec fn hex(bytes: Seq<u8>) -> Seq<char>
    decreases bytes.len(),
{
    if bytes.len() == 0 {
        Seq::empty()
    } else {
        let last = bytes.last() as nat;
        hex(bytes.drop_last()).push(hex_digit(last / 16)).push(hex_digit(last))
    }
}

/// `s` with every `c` written twice.
pub open spec fn doubled(s: Seq<char>, c: char) -> Seq<char>
    decreases s.len(),
{
    if s.len() == 0 {
        Seq::empty()
    } else if s.last() == c {
        doubled(s.drop_last(), c).push(c).push(c)
    } else {
        doubled(s.drop_last(), c).push(s.last())
    }
}

/// `parts` one after the other, with `separator` between two neighbours.
pub open spec fn joined(parts: Seq<Seq<char>>, separator: Seq<char>) -> Seq<char>
    decreases parts.len(),
{
    if parts.len() == 0 {
        Seq::empty()
    } else if parts.len() == 1 {
        parts[0]
    } else {
        joined(parts.drop_last(), separator) + separator + parts.last()
    }
}

fn digit_char(n: u64) -> (c: char)
    ensures
        c == digit(n as nat),
{
    let d: u8 = (n % 10) as u8;
    (48 + d) as char
}

fn hex_digit_char(n: u8) -> (c: char)
    ensures
        c == hex_digit(n as nat),
{
    let d: u8 = n % 16;
    if d < 10 {
        (48 + d) as char
    } else {
        (87 + d) as char
    }
}

/// Appends `n` in decimal.
pub fn push_decimal(out: &mut String, n: u64)
    ensures
        final(out)@ == old(out)@ + decimal(n as nat),
    decreases n,
{
    if n >= 10 {
        push_decimal(out, n / 10);
    }
    out.push(digit_char(n));
    assert(out@ =~= old(out)@ + decimal(n as nat));
}

/// Appends the last `width` decimal digits of `n`.
pub fn push_digits(out: &mut String, n: u64, width: u64)
    ensures
        final(out)@ == old(out)@ + digits(n as nat, width as nat),
    decreases width,
{
    if width > 0 {
        push_digits(out, n / 10, width - 1);
        out.push(digit_char(n));
    }
    assert(out@ =~= old(out)@ + digits(n as nat, width as nat));
}

/// `n` in decimal.
pub fn unsigned_text(n: u64) -> (text: String)
    ensures
        text@ == decimal(n as nat),
{
    let mut text = String::new();
    push_decimal(&mut text, n);
    assert(text@ =~= decimal(n as nat));
    text
}

/// `n` in decimal, with a minus sign before negative numbers.
pub fn signed_text(n: i64) -> (text: String)
    ensures
        text@ == signed_decimal(n as int),
{
    let mut text = String::new();
    if n < 0 {
        let magnitude: u64 = (-(n as i128)) as u64;
        text.push('-');
        push_decimal(&mut text, magnitude);
    } else {
        push_decimal(&mut text, n as u64);
    }
    assert(text@ =~= signed_decimal(n as int));
    text
}

/// `true` or `false`.
pub open spec fn bool_word(b: bool) -> Seq<char> {
    if b {
        "true"@
    } else {
        "false"@
    }
}

/// `true` or `false`.
pub fn bool_text(b: bool) -> (text: String)
    ensures
        text@ == bool_word(b),
{
    if b {
        "true".to_string()
    } else {
        "false".to_string()
    }
}

/// Appends two hexadecimal digits for every byte.
pub fn push_hex(out: &mut String, bytes: &[u8])
    ensures
        final(out)@ == old(out)@ + hex(bytes@),
{
    let mut i: usize = 0;
    assert(out@ =~= old(out)@ + hex(bytes@.take(0)));
    while i < bytes.len()
        invariant
            i <= bytes@.len(),
            out@ == old(out)@ + hex(bytes@.take(i as int)),
        decreases bytes@.len() - i,
    {
        let byte: u8 = bytes[i];
        out.push(hex_digit_char(byte / 16));
        out.push(hex_digit_char(byte));
        assert(bytes@.take(i as int + 1).drop_last() =~= bytes@.take(i as int));
        assert(out@ =~= old(out)@ + hex(bytes@.take(i as int + 1)));
        i += 1;
    }
    assert(bytes@.take(i as int) =~= bytes@);
}

/// The characters of `s`.
pub fn chars_of(s: &str) -> (chars: Vec<char>)
    ensures
        chars@ == s@,
{
    let mut chars: Vec<char> = Vec::new();
    for ch in it: s.chars()
        invariant
            chars@ == s@.take(it.index()),
            it.seq() == s@,
    {
        chars.push(ch);
        assert(chars@ =~= s@.take(it.index() + 1));
    }
    assert(s@.take(s@.len() as int) =~= s@);
    chars
}

/// `s` with every `c` written twice.
pub fn doubled_text(s: &str, c: char) -> (text: String)
    ensures
        text@ == doubled(s@, c),
{
    let mut text = String::new();
    assert(text@ =~= doubled(s@.take(0), c));
    for ch in it: s.chars()
        invariant
            it.seq() == s@,
            text@ == doubled(s@.take(it.index()), c),
    {
        if ch == c {
            text.push(c);
        }
        text.push(ch);
        assert(s@.take(it.index() + 1).drop_last() =~= s@.take(it.index()));
    }
    assert(s@.take(s@.len() as int) =~= s@);
    text
}

/// `parts` one after the other, with `separator` between two neighbours.
pub fn joined_text(parts: &[String], separator: &str) -> (text: String)
    ensures
        text@ == joined(texts(parts@), separator@),
{
    let mut text = String::new();
    let mut i: usize = 0;
    while i < parts.len()
        invariant
            i <= parts@.len(),
            text@ == joined(texts(parts@).take(i as int), separator@),
        decreases parts@.len() - i,
    {
        if i > 0 {
            text.append(separator);
        }
        text.append(parts[i].as_str());
        proof {
            let next = texts(parts@).take(i as int + 1);
            assert(next.drop_last() =~= texts(parts@).take(i as int));
            if i == 0 {
                assert(text@ =~= next[0]);
            }
        }
        i += 1;
    }
    assert(texts(parts@).take(i as int) =~= texts(parts@));
    text
}

/// The same texts.
pub fn copied_texts(strings: &[String]) -> (copies: Vec<String>)
    ensures
        texts(copies@) == texts(strings@),
{
    let mut copies: Vec<String> = Vec::new();
    let mut i: usize = 0;
    while i < strings.len()
        invariant
            i <= strings@.len(),
            copies@.len() == i,
            forall|k: int| 0 <= k < i ==> (#[trigger] copies@[k])@ == strings@[k]@,
        decreases strings@.len() - i,
    {
        copies.push(strings[i].clone());
        i += 1;
    }
    assert(texts(copies@) =~= texts(strings@));
    copies
}

/// Different numbers have different decimal texts.
pub proof fn decimal_is_injective(m: nat, n: nat)
    requires
        decimal(m) == decimal(n),
    ensures
        m == n,
    decreases m,
{
    assert(decimal(m).last() == digit(m));
    assert(decimal(n).last() == digit(n));
    assert(decimal(m).drop_last() =~= if m < 10 { Seq::empty() } else { decimal(m / 10) });
    assert(decimal(n).drop_last() =~= if n < 10 { Seq::empty() } else { decimal(n / 10) });
    if m >= 10 && n >= 10 {
        decimal_is_injective(m / 10, n / 10);
    } else if m >= 10 {
        assert(decimal(m / 10).len() > 0);
    } else if n >= 10 {
        assert(decimal(n / 10).len() > 0);
    }
}

/// Whether a character is a decimal digit.
pub open spec fn is_digit(c: char) -> bool {
    48 <= c as int <= 57
}

/// A number in decimal has at least one digit, and nothing but digits.
pub proof fn decimal_has_digits(n: nat)
    ensures
        decimal(n).len() > 0,
        forall|i: int| 0 <= i < decimal(n).len() ==> is_digit(#[trigger] decimal(n)[i]),
    decreases n,
{
    if n >= 10 {
        decimal_has_digits(n / 10);
        assert forall|i: int| 0 <= i < decimal(n).len() implies is_digit(
            #[trigger] decimal(n)[i],
        ) by {
            if i < decimal(n / 10).len() {
                assert(decimal(n)[i] == decimal(n / 10)[i]);
            }
        }
    }
}

/// A number from ten thousand on has at least five digits.
pub proof fn large_numbers_have_many_digits(n: nat)
    requires
        n >= 10000,
    ensures
        decimal(n).len() >= 5,
{
    reveal_with_fuel(decimal, 5);
    decimal_has_digits(n / 10 / 10 / 10 / 10);
}

/// Different numbers have different texts.
pub proof fn signed_decimal_is_injective(m: int, n: int)
    requires
        signed_decimal(m) == signed_decimal(n),
    ensures
        m == n,
{
    decimal_has_digits(if m < 0 { -m } else { m } as nat);
    decimal_has_digits(if n < 0 { -n } else { n } as nat);
    assert(m < 0 ==> signed_decimal(m)[0] == '-');
    assert(n < 0 ==> signed_decimal(n)[0] == '-');
    if m < 0 && n < 0 {
        assert(signed_decimal(m).skip(1) =~= decimal((-m) as nat));
        assert(signed_decimal(n).skip(1) =~= decimal((-n) as nat));
        decimal_is_injective((-m) as nat, (-n) as nat);
    } else if m >= 0 && n >= 0 {
        decimal_is_injective(m as nat, n as nat);
    }
}

/// Ten to the power of `n`.
pub open spec fn ten_to(n: nat) -> nat
    decreases n,
{
    if n == 0 {
        1
    } else {
        10 * ten_to((n - 1) as nat)
    }
}

/// Digits of a fixed width are that many digits.
pub proof fn digits_have_width(n: nat, width: nat)
    ensures
        digits(n, width).len() == width,
        forall|i: int| 0 <= i < width ==> is_digit(#[trigger] digits(n, width)[i]),
    decreases width,
{
    if width > 0 {
        let before = digits(n / 10, (width - 1) as nat);
        digits_have_width(n / 10, (width - 1) as nat);
        assert forall|i: int| 0 <= i < width implies is_digit(#[trigger] digits(n, width)[i]) by {
            if i < width - 1 {
                assert(digits(n, width)[i] == before[i]);
            }
        }
    }
}

/// Different numbers that the width suffices for have different digits.
pub proof fn digits_are_injective(m: nat, n: nat, width: nat)
    requires
        m < ten_to(width),
        n < ten_to(width),
        digits(m, width) == digits(n, width),
    ensures
        m == n,
    decreases width,
{
    if width > 0 {
        let fewer = (width - 1) as nat;
        assert(digits(m, width).last() == digit(m));
        assert(digits(n, width).last() == digit(n));
        assert(digits(m, width).drop_last() =~= digits(m / 10, fewer));
        assert(digits(n, width).drop_last() =~= digits(n / 10, fewer));
        digits_are_injective(m / 10, n / 10, fewer);
    }
}

/// Bytes have two hexadecimal digits each.
pub proof fn hex_has_two_digits_each(bytes: Seq<u8>)
    ensures
        hex(bytes).len() == 2 * bytes.len(),
        forall|i: int|
            0 <= i < hex(bytes).len() ==> {
                let c = #[trigger] hex(bytes)[i];
                is_digit(c) || 97 <= c as int <= 102
            },
    decreases bytes.len(),
{
    if bytes.len() > 0 {
        let before = hex(bytes.drop_last());
        hex_has_two_digits_each(bytes.drop_last());
        assert forall|i: int| 0 <= i < hex(bytes).len() implies {
            let c = #[trigger] hex(bytes)[i];
            is_digit(c) || 97 <= c as int <= 102
        } by {
            if i < before.len() {
                assert(hex(bytes)[i] == before[i]);
            }
        }
    }
}

/// Different bytes have different hexadecimal texts.
pub proof fn hex_is_injective(left: Seq<u8>, right: Seq<u8>)
    requires
        hex(left) == hex(right),
    ensures
        left == right,
    decreases left.len(),
{
    hex_has_two_digits_each(left);
    hex_has_two_digits_each(right);
    if left.len() > 0 {
        let text = hex(left);
        assert(text.last() == hex_digit(left.last() as nat));
        assert(text.last() == hex_digit(right.last() as nat));
        assert(text.drop_last().last() == hex_digit(left.last() as nat / 16));
        assert(text.drop_last().last() == hex_digit(right.last() as nat / 16));
        assert(left.last() == right.last());
        assert(text.drop_last().drop_last() =~= hex(left.drop_last()));
        assert(text.drop_last().drop_last() =~= hex(right.drop_last()));
        hex_is_injective(left.drop_last(), right.drop_last());
        assert(left =~= left.drop_last().push(left.last()));
        assert(right =~= right.drop_last().push(right.last()));
    } else {
        assert(left =~= right);
    }
}

/// Texts that are put together at a character that does not occur before can be told apart.
pub proof fn first_separator_parts(
    left: Seq<char>,
    right: Seq<char>,
    left_rest: Seq<char>,
    right_rest: Seq<char>,
    separator: char,
)
    requires
        !left.contains(separator),
        !right.contains(separator),
        left + seq![separator] + left_rest == right + seq![separator] + right_rest,
    ensures
        left == right,
        left_rest == right_rest,
{
    let whole = left + seq![separator] + left_rest;
    let other = right + seq![separator] + right_rest;
    assert(whole[left.len() as int] == separator);
    assert(other[right.len() as int] == separator);
    if left.len() < right.len() {
        assert(other[left.len() as int] == right[left.len() as int]);
        assert(false);
    }
    if right.len() < left.len() {
        assert(whole[right.len() as int] == left[right.len() as int]);
        assert(false);
    }
    assert(whole.take(left.len() as int) =~= left);
    assert(other.take(right.len() as int) =~= right);
    assert(whole.skip(left.len() as int + 1) =~= left_rest);
    assert(other.skip(right.len() as int + 1) =~= right_rest);
}

/// Doubling loses nothing.
pub proof fn doubled_is_injective(s: Seq<char>, t: Seq<char>, c: char)
    requires
        doubled(s, c) == doubled(t, c),
    ensures
        s == t,
    decreases s.len() + t.len(),
{
    let d = doubled(s, c);
    if s.len() == 0 {
        assert(t.len() > 0 ==> doubled(t, c).len() > 0);
        assert(s =~= t);
    } else if t.len() == 0 {
        assert(d.len() > 0);
    } else {
        assert(d.last() == s.last());
        assert(d.last() == t.last());
        if s.last() == c {
            assert(d.drop_last().drop_last() =~= doubled(s.drop_last(), c));
            assert(d.drop_last().drop_last() =~= doubled(t.drop_last(), c));
        } else {
            assert(d.drop_last() =~= doubled(s.drop_last(), c));
            assert(d.drop_last() =~= doubled(t.drop_last(), c));
        }
        doubled_is_injective(s.drop_last(), t.drop_last(), c);
        assert(s =~= s.drop_last().push(s.last()));
        assert(t =~= t.drop_last().push(t.last()));
    }
}

} // verus!
