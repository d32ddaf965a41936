//! Composite keys as one text.

use vstd::prelude::*;

use crate::text;

verus! {

/// What stands between two parts of a composite key.
pub const COMPOSITE_KEY_DELIMITER: &'static str = "::";

/// What a delimiter within a part is replaced by.
pub const COMPOSITE_KEY_ESCAPE_REPLACEMENT: &'static str = "::::";

/// Whether `s` has a colon at position `i`.
pub open spec fn colon_at(s: Seq<char>, i: int) -> bool {
    0 <= i < s.len() && s[i] == ':'
}

/// A part of a composite key with every delimiter in it replaced, from the left.
pub open spec fn escaped(part: Seq<char>) -> Seq<char>
    decreases part.len(),
{
    if part.len() == 0 {
        Seq::empty()
    } else if colon_at(part, 0) && colon_at(part, 1) {
        seq![':', ':', ':', ':'] + escaped(part.skip(2))
    } else {
        seq![part[0]] + escaped(part.skip(1))
    }
}

/// The composite key with these parts.
pub open spec fn join_key(parts: Seq<Seq<char>>) -> Seq<char> {
    text::joined(parts.map_values(|part: Seq<char>| escaped(part)), seq![':', ':'])
}

/// The parts of a composite key from `key` on, where `part` has been read of the first of them.
///
/// Two colons end a part. A third one makes them, together with the character that follows, a
/// delimiter that belongs to the part.
pub open spec fn split_from(key: Seq<char>, part: Seq<char>) -> Seq<Seq<char>>
    decreases key.len(),
{
    if key.len() == 0 {
        seq![part]
    } else if colon_at(key, 0) && colon_at(key, 1) && colon_at(key, 2) {
        split_from(
            key.skip(if key.len() < 4 {
                3
            } else {
                4
            }),
            part + seq![':', ':'],
        )
    } else if colon_at(key, 0) && colon_at(key, 1) {
        seq![part] + split_from(key.skip(2), Seq::empty())
    } else {
        split_from(key.skip(1), part.push(key[0]))
    }
}

/// The parts of a composite key. An empty key has none.
pub open spec fn split_key(key: Seq<char>) -> Seq<Seq<char>> {
    if key.len() == 0 {
        Seq::empty()
    } else {
        split_from(key, Seq::empty())
    }
}

/// The number of colons at the end of `s`.
pub open spec fn trailing_colons(s: Seq<char>) -> nat
    decreases s.len(),
{
    if s.len() > 0 && s.last() == ':' {
        trailing_colons(s.drop_last()) + 1
    } else {
        0
    }
}

/// Whether the parts of a composite key can be told from the key: a single part is not empty,
/// before a delimiter colons come in pairs, after a delimiter there is no colon, and between
/// two delimiters there is something.
pub open spec fn is_recoverable(parts: Seq<Seq<char>>) -> bool {
    &&& parts.len() == 1 ==> parts[0].len() > 0
    &&& forall|i: int| 0 <= i < parts.len() - 1 ==> trailing_colons(#[trigger] parts[i]) % 2 == 0
    &&& forall|i: int| 1 <= i < parts.len() ==> !colon_at(#[trigger] parts[i], 0)
    &&& forall|i: int| 1 <= i < parts.len() - 1 ==> (#[trigger] parts[i]).len() > 0
}

proof fn trailing_colons_of_suffix(s: Seq<char>, n: int)
    requires
        0 <= n <= s.len(),
    ensures
        trailing_colons(s) == if trailing_colons(s.skip(n)) == s.len() - n {
            s.len() - n + trailing_colons(s.take(n))
        } else {
            trailing_colons(s.skip(n)) as int
        },
        trailing_colons(s) <= s.len(),
    decreases s.len(),
{
    if s.len() > 0 {
        if n < s.len() {
            trailing_colons_of_suffix(s.drop_last(), n);
            assert(s.skip(n).drop_last() =~= s.drop_last().skip(n));
            assert(s.drop_last().take(n) =~= s.take(n));
            assert(s.skip(n).last() == s.last());
        } else {
            trailing_colons_of_suffix(s.drop_last(), n - 1);
            assert(s.skip(n) =~= Seq::empty());
            assert(s.take(n) =~= s);
        }
    } else {
        assert(s.take(n) =~= s);
        assert(s.skip(n) =~= s);
    }
}

/// Reading the escaped form of a part gives the part, up to where the part ends.
proof fn split_reads_part(part: Seq<char>, rest: Seq<char>, read: Seq<char>)
    requires
        rest.len() > 0 ==> trailing_colons(part) % 2 == 0 && colon_at(rest, 0) && colon_at(rest, 1)
            && !colon_at(rest, 2),
    ensures
        split_from(escaped(part) + rest, read) == split_from(rest, read + part),
    decreases part.len(),
{
    let key = escaped(part) + rest;
    if part.len() == 0 {
        assert(key =~= rest);
        assert(read + part =~= read);
    } else if colon_at(part, 0) && colon_at(part, 1) {
        let tail = part.skip(2);
        trailing_colons_of_suffix(part, 2);
        let head = part.take(2);
        assert(head.drop_last().drop_last() =~= Seq::empty());
        assert(trailing_colons(head) == 2) by {
            reveal_with_fuel(trailing_colons, 3);
        }
        split_reads_part(tail, rest, read + seq![':', ':']);
        assert(key.skip(4) =~= escaped(tail) + rest);
        assert(read + seq![':', ':'] + tail =~= read + part);
    } else {
        let tail = part.skip(1);
        trailing_colons_of_suffix(part, 1);
        assert(part.take(1).drop_last() =~= Seq::empty());
        if part.len() == 1 && part[0] == ':' {
            assert(trailing_colons(part) == 1) by {
                reveal_with_fuel(trailing_colons, 2);
                assert(part.drop_last() =~= Seq::empty());
            }
            assert(escaped(tail) =~= Seq::empty());
        } else if part[0] == ':' {
            assert(tail[0] == part[1]);
            assert(escaped(tail)[0] == tail[0]);
        }
        assert(trailing_colons(tail) % 2 == trailing_colons(part) % 2 || rest.len() == 0) by {
            reveal_with_fuel(trailing_colons, 2);
            assert(part.take(1).last() == part[0]);
            if tail.len() > 0 && part[0] == ':' {
                trailing_colons_of_suffix(tail, 1);
                trailing_colons_of_suffix(tail.skip(1), 0);
                assert(tail.take(1).last() == tail[0]);
            }
        }
        split_reads_part(tail, rest, read.push(part[0]));
        assert(key.skip(1) =~= escaped(tail) + rest);
        assert(read.push(part[0]) + tail =~= read + part);
        assert(key[0] == part[0]);
        assert(!(colon_at(key, 0) && colon_at(key, 1)));
    }
}

/// The parts of a composite key from the second one on, each with its delimiter.
spec fn rest_of_key(parts: Seq<Seq<char>>) -> Seq<char>
    decreases parts.len(),
{
    if parts.len() == 0 {
        Seq::empty()
    } else {
        rest_of_key(parts.drop_last()) + seq![':', ':'] + escaped(parts.last())
    }
}

proof fn rest_of_key_from_the_left(parts: Seq<Seq<char>>)
    requires
        parts.len() > 0,
    ensures
        rest_of_key(parts) == seq![':', ':'] + escaped(parts[0]) + rest_of_key(parts.skip(1)),
    decreases parts.len(),
{
    if parts.len() == 1 {
        reveal_with_fuel(rest_of_key, 2);
        assert(parts.drop_last() =~= Seq::empty());
        assert(parts.skip(1) =~= Seq::empty());
        assert(rest_of_key(parts) =~= seq![':', ':'] + escaped(parts[0]) + rest_of_key(
            parts.skip(1),
        ));
    } else {
        rest_of_key_from_the_left(parts.drop_last());
        assert(parts.drop_last().skip(1) =~= parts.skip(1).drop_last());
        assert(parts.skip(1).last() == parts.last());
        assert(rest_of_key(parts) =~= seq![':', ':'] + escaped(parts[0]) + rest_of_key(
            parts.skip(1),
        ));
    }
}

proof fn joined_is_first_and_rest(parts: Seq<Seq<char>>)
    requires
        parts.len() > 0,
    ensures
        join_key(parts) == escaped(parts[0]) + rest_of_key(parts.skip(1)),
    decreases parts.len(),
{
    let pieces = parts.map_values(|part: Seq<char>| escaped(part));
    if parts.len() == 1 {
        assert(parts.skip(1) =~= Seq::empty());
        assert(join_key(parts) =~= escaped(parts[0]) + rest_of_key(parts.skip(1)));
    } else {
        joined_is_first_and_rest(parts.drop_last());
        assert(pieces.drop_last() =~= parts.drop_last().map_values(
            |part: Seq<char>| escaped(part),
        ));
        assert(parts.drop_last().skip(1) =~= parts.skip(1).drop_last());
        assert(join_key(parts) =~= escaped(parts[0]) + rest_of_key(parts.skip(1)));
    }
}

/// Splitting what was joined gives the parts, one after the other.
proof fn split_reads_parts(first: Seq<char>, others: Seq<Seq<char>>)
    requires
        is_recoverable(seq![first] + others),
    ensures
        split_from(escaped(first) + rest_of_key(others), Seq::empty()) == seq![first] + others,
    decreases others.len(),
{
    let parts = seq![first] + others;
    let rest = rest_of_key(others);
    if others.len() == 0 {
        split_reads_part(first, rest, Seq::empty());
        assert(Seq::<char>::empty() + first =~= first);
        assert(seq![first] + others =~= seq![first]);
    } else {
        rest_of_key_from_the_left(others);
        let second = others[0];
        let tail = others.skip(1);
        assert(parts[0] == first);
        assert(parts[1] == second);
        assert(rest.skip(2) =~= escaped(second) + rest_of_key(tail));
        if second.len() == 0 {
            assert(others.len() == 1);
            assert(tail =~= Seq::empty());
        } else {
            assert(escaped(second)[0] == second[0]);
        }
        assert(!colon_at(rest, 2));
        split_reads_part(first, rest, Seq::empty());
        assert(Seq::<char>::empty() + first =~= first);
        let next = seq![second] + tail;
        assert(next =~= others);
        if others.len() > 1 || second.len() > 0 {
            assert forall|i: int| 0 <= i < next.len() implies #[trigger] next[i] == parts[i + 1] by {}
            assert(is_recoverable(next));
            split_reads_parts(second, tail);
            assert(split_from(rest.skip(2), Seq::empty()) == others);
        } else {
            assert(rest.skip(2) =~= Seq::empty());
            assert(second =~= Seq::empty());
            assert(split_from(rest.skip(2), Seq::empty()) =~= others);
        }
        assert(colon_at(rest, 0) && colon_at(rest, 1));
        assert(split_from(rest, first) == seq![first] + others);
    }
}

/// What a split reads after `part` keeps the beginning, and can be told from the key.
proof fn split_parts_are_recoverable(key: Seq<char>, part: Seq<char>)
    requires
        trailing_colons(part) % 2 == 0 || !colon_at(key, 0),
    ensures
        split_from(key, part).len() > 0,
        part.is_prefix_of(split_from(key, part)[0]),
        key.len() > 0 && split_from(key, part).len() == 1 ==> split_from(key, part)[0].len()
            > part.len(),
        key.len() > 0 && !colon_at(key, 0) ==> split_from(key, part)[0].len() > part.len(),
        key.len() > 0 && !colon_at(key, 0) ==> split_from(key, part)[0][part.len() as int] == key[0],
        forall|i: int|
            0 <= i < split_from(key, part).len() - 1 ==> trailing_colons(
                #[trigger] split_from(key, part)[i],
            ) % 2 == 0,
        forall|i: int|
            1 <= i < split_from(key, part).len() ==> !colon_at(
                #[trigger] split_from(key, part)[i],
                0,
            ),
        forall|i: int|
            1 <= i < split_from(key, part).len() - 1 ==> (#[trigger] split_from(
                key,
                part,
            )[i]).len() > 0,
    decreases key.len(),
{
    let parts = split_from(key, part);
    if key.len() == 0 {
    } else if colon_at(key, 0) && colon_at(key, 1) && colon_at(key, 2) {
        let longer = part + seq![':', ':'];
        assert(longer.drop_last().drop_last() =~= part);
        assert(trailing_colons(longer) == trailing_colons(part) + 2) by {
            reveal_with_fuel(trailing_colons, 3);
        }
        let skip: int = if key.len() < 4 {
            3
        } else {
            4
        };
        split_parts_are_recoverable(key.skip(skip), longer);
        assert(part.is_prefix_of(longer));
    } else if colon_at(key, 0) && colon_at(key, 1) {
        let empty = Seq::<char>::empty();
        let others = split_from(key.skip(2), empty);
        split_parts_are_recoverable(key.skip(2), empty);
        assert(parts =~= seq![part] + others);
        assert(!colon_at(key.skip(2), 0));
        assert forall|i: int| 1 <= i < parts.len() implies #[trigger] parts[i] == others[i - 1] by {}
        if key.skip(2).len() == 0 {
            assert(others =~= seq![empty]);
        }
    } else {
        let longer = part.push(key[0]);
        assert(longer.drop_last() =~= part);
        if key[0] == ':' {
            assert(!colon_at(key.skip(1), 0));
        }
        split_parts_are_recoverable(key.skip(1), longer);
        assert(part.is_prefix_of(longer));
        assert(parts[0].len() > part.len());
        assert(parts[0][part.len() as int] == longer[part.len() as int]);
    }
}

/// Splitting a composite key gives back exactly the parts that it was joined from if and only
/// if they are recoverable.
pub proof fn split_undoes_join(parts: Seq<Seq<char>>)
    ensures
        split_key(join_key(parts)) == parts <==> is_recoverable(parts),
{
    let key = join_key(parts);
    if is_recoverable(parts) {
        if parts.len() == 0 {
            assert(parts =~= Seq::empty());
        } else {
            joined_is_first_and_rest(parts);
            let others = parts.skip(1);
            assert(parts =~= seq![parts[0]] + others);
            split_reads_parts(parts[0], others);
            if parts.len() == 1 {
                assert(escaped(parts[0]).len() > 0);
            } else {
                rest_of_key_from_the_left(others);
            }
        }
    } else if key.len() > 0 {
        split_parts_are_recoverable(key, Seq::empty());
        if split_key(key) == parts {
            assert(is_recoverable(parts));
        }
    } else if split_key(key) == parts {
        assert(parts =~= Seq::empty());
    }
}

/// The number of colons at the beginning of `s`.
pub open spec fn leading_colons(s: Seq<char>) -> nat
    decreases s.len(),
{
    if colon_at(s, 0) {
        1 + leading_colons(s.skip(1))
    } else {
        0
    }
}

/// Whether no run of colons has a length of three, seven, eleven and so on. A split reads the first
/// three colons of what is left of such a run together with the character that follows.
pub open spec fn runs_are_kept(key: Seq<char>) -> bool {
    forall|i: int|
        #![trigger key.skip(i)]
        colon_at(key, i) && !colon_at(key, i - 1) ==> leading_colons(key.skip(i)) % 4 != 3
}

/// The text of the parts that a split reads.
spec fn reread(key: Seq<char>) -> Seq<char>
    decreases key.len(),
{
    if key.len() == 0 {
        Seq::empty()
    } else if colon_at(key, 0) && colon_at(key, 1) && colon_at(key, 2) {
        seq![':', ':', ':', ':'] + reread(
            key.skip(if key.len() < 4 {
                3
            } else {
                4
            }),
        )
    } else if colon_at(key, 0) && colon_at(key, 1) {
        seq![':', ':'] + reread(key.skip(2))
    } else {
        seq![key[0]] + reread(key.skip(1))
    }
}

/// A character at the end of a part is escaped by itself, unless it makes a pair of colons.
proof fn escaped_with_one_more(part: Seq<char>, c: char)
    requires
        c != ':' || trailing_colons(part) % 2 == 0,
    ensures
        escaped(part.push(c)) == escaped(part).push(c),
    decreases part.len(),
{
    let longer = part.push(c);
    if part.len() == 0 {
        assert(longer.skip(1) =~= Seq::empty());
        assert(escaped(longer.skip(1)) =~= Seq::empty());
        assert(escaped(longer) =~= escaped(part).push(c));
    } else if colon_at(part, 0) && colon_at(part, 1) {
        leading_pair_keeps_parity(part);
        escaped_with_one_more(part.skip(2), c);
        assert(longer.skip(2) =~= part.skip(2).push(c));
        assert(escaped(longer) =~= escaped(part).push(c));
    } else {
        single_character_keeps_parity(part);
        if part.len() > 1 || c != ':' || part[0] != ':' {
            escaped_with_one_more(part.skip(1), c);
        }
        assert(longer.skip(1) =~= part.skip(1).push(c));
        assert(escaped(longer) =~= escaped(part).push(c));
    }
}

proof fn leading_pair_keeps_parity(part: Seq<char>)
    requires
        colon_at(part, 0),
        colon_at(part, 1),
    ensures
        trailing_colons(part) % 2 == trailing_colons(part.skip(2)) % 2,
{
    let head = part.take(2);
    trailing_colons_of_suffix(part, 2);
    trailing_colons_of_suffix(part.skip(2), 0);
    assert(head.drop_last().drop_last() =~= Seq::empty());
    assert(trailing_colons(head) == 2) by {
        reveal_with_fuel(trailing_colons, 3);
    }
}

proof fn single_character_keeps_parity(part: Seq<char>)
    requires
        part.len() > 0,
        !(colon_at(part, 0) && colon_at(part, 1)),
    ensures
        part.len() == 1 && part[0] == ':' ==> trailing_colons(part) == 1,
        part.len() > 1 || part[0] != ':' ==> trailing_colons(part) == trailing_colons(part.skip(1)),
{
    let tail = part.skip(1);
    trailing_colons_of_suffix(part, 1);
    assert(part.take(1).drop_last() =~= Seq::empty());
    assert(part.take(1).last() == part[0]);
    reveal_with_fuel(trailing_colons, 2);
    if part.len() == 1 {
        assert(part.drop_last() =~= Seq::empty());
        assert(tail =~= Seq::empty());
    } else if part[0] == ':' {
        assert(tail[0] == part[1]);
        trailing_colons_of_suffix(tail, 1);
        trailing_colons_of_suffix(tail.skip(1), 0);
        assert(tail.take(1).last() == tail[0]);
        assert(tail.take(1).drop_last() =~= Seq::empty());
    }
}

/// A pair of colons at the end of a part is escaped to four colons at the end.
proof fn escaped_with_a_pair(part: Seq<char>)
    ensures
        escaped(part + seq![':', ':']) == escaped(part) + seq![':', ':', ':', ':'],
    decreases part.len(),
{
    let longer = part + seq![':', ':'];
    if part.len() == 0 {
        assert(longer.skip(2) =~= Seq::empty());
        assert(escaped(longer.skip(2)) =~= Seq::empty());
    } else if colon_at(part, 0) && colon_at(part, 1) {
        escaped_with_a_pair(part.skip(2));
        assert(longer.skip(2) =~= part.skip(2) + seq![':', ':']);
    } else if part.len() == 1 && part[0] == ':' {
        assert(escaped(part.skip(1)) =~= Seq::empty());
        assert(longer.skip(2) =~= part);
        assert(escaped(longer) =~= seq![':', ':', ':', ':'] + escaped(part));
    } else {
        escaped_with_a_pair(part.skip(1));
        assert(longer.skip(1) =~= part.skip(1) + seq![':', ':']);
    }
    assert(escaped(longer) =~= escaped(part) + seq![':', ':', ':', ':']);
}

/// A first part is joined to the others with a delimiter.
proof fn joined_with_a_first_part(first: Seq<char>, others: Seq<Seq<char>>)
    requires
        others.len() > 0,
    ensures
        join_key(seq![first] + others) == escaped(first) + seq![':', ':'] + join_key(others),
{
    let parts = seq![first] + others;
    joined_is_first_and_rest(parts);
    joined_is_first_and_rest(others);
    rest_of_key_from_the_left(others);
    assert(parts.skip(1) =~= others);
    assert(join_key(parts) =~= escaped(first) + seq![':', ':'] + join_key(others));
}

/// Joining what a split reads gives what was read, and the rest as it is read.
proof fn join_of_split(key: Seq<char>, part: Seq<char>)
    requires
        trailing_colons(part) % 2 == 0 || !colon_at(key, 0),
    ensures
        join_key(split_from(key, part)) == escaped(part) + reread(key),
    decreases key.len(),
{
    if key.len() == 0 {
        joined_is_first_and_rest(seq![part]);
        assert(seq![part].skip(1) =~= Seq::empty());
        assert(escaped(part) + reread(key) =~= escaped(part));
        assert(join_key(seq![part]) =~= escaped(part));
    } else if colon_at(key, 0) && colon_at(key, 1) && colon_at(key, 2) {
        let longer = part + seq![':', ':'];
        assert(longer.drop_last().drop_last() =~= part);
        assert(trailing_colons(longer) == trailing_colons(part) + 2) by {
            reveal_with_fuel(trailing_colons, 3);
        }
        let skip: int = if key.len() < 4 {
            3
        } else {
            4
        };
        join_of_split(key.skip(skip), longer);
        escaped_with_a_pair(part);
        assert(escaped(longer) + reread(key.skip(skip)) =~= escaped(part) + reread(key));
    } else if colon_at(key, 0) && colon_at(key, 1) {
        let empty = Seq::<char>::empty();
        let others = split_from(key.skip(2), empty);
        split_parts_are_recoverable(key.skip(2), empty);
        join_of_split(key.skip(2), empty);
        joined_with_a_first_part(part, others);
        assert(escaped(part) + seq![':', ':'] + (escaped(empty) + reread(key.skip(2)))
            =~= escaped(part) + reread(key));
    } else {
        let longer = part.push(key[0]);
        assert(longer.drop_last() =~= part);
        if key[0] == ':' {
            assert(!colon_at(key.skip(1), 0));
        }
        join_of_split(key.skip(1), longer);
        escaped_with_one_more(part, key[0]);
        assert(escaped(longer) + reread(key.skip(1)) =~= escaped(part) + reread(key));
    }
}

/// The runs of colons after the first `n` characters are those that are left, if the characters do
/// not end within a run or are four colons.
proof fn runs_of_the_rest(key: Seq<char>, n: int)
    requires
        0 < n <= key.len(),
        forall|i: int| 0 < i < n ==> #[trigger] colon_at(key, i - 1),
        leading_colons(key) % 4 != 3,
        n < key.len() && colon_at(key, n - 1) && colon_at(key, n) ==> leading_colons(key.skip(n))
            % 4 == leading_colons(key) % 4,
    ensures
        runs_are_kept(key) <==> runs_are_kept(key.skip(n)),
{
    let rest = key.skip(n);
    assert forall|i: int| 0 <= i < rest.len() implies rest.skip(i) == key.skip(n + i) by {
        assert(rest.skip(i) =~= key.skip(n + i));
    }
    assert(key.skip(0) =~= key);
    if runs_are_kept(key) {
        assert forall|i: int|
            #![trigger rest.skip(i)]
            colon_at(rest, i) && !colon_at(rest, i - 1) implies leading_colons(rest.skip(i)) % 4
            != 3 by {
            assert(rest.skip(i) == key.skip(n + i));
            assert(colon_at(key, n + i));
            if i > 0 {
                assert(!colon_at(key, n + i - 1));
            }
        }
    }
    if runs_are_kept(rest) {
        assert forall|i: int|
            #![trigger key.skip(i)]
            colon_at(key, i) && !colon_at(key, i - 1) implies leading_colons(key.skip(i)) % 4
            != 3 by {
            if 0 < i < n {
                assert(colon_at(key, i - 1));
            } else if i >= n {
                assert(rest.skip(i - n) == key.skip(i));
                assert(colon_at(rest, i - n));
                if i > n {
                    assert(!colon_at(rest, i - n - 1));
                }
            }
        }
    }
}

/// A split reads a key as it is if and only if all its runs are kept.
proof fn kept_runs_are_read(key: Seq<char>)
    ensures
        reread(key) == key <==> runs_are_kept(key),
    decreases key.len(),
{
    assert(key.skip(0) =~= key);
    if key.len() == 0 {
        assert(reread(key) =~= key);
    } else if colon_at(key, 0) && colon_at(key, 1) && colon_at(key, 2) {
        leading_colons_of_four(key);
        if colon_at(key, 3) {
            let rest = key.skip(4);
            if leading_colons(key) % 4 == 3 {
                // The run goes on with as many colons modulo four.
                kept_runs_are_read(rest);
                assert(rest.skip(0) =~= rest);
                assert(!runs_are_kept(key)) by {
                    assert(leading_colons(key.skip(0)) % 4 == 3);
                }
                assert(!runs_are_kept(rest)) by {
                    assert(leading_colons(rest.skip(0)) % 4 == 3);
                    assert(colon_at(rest, 0));
                }
            } else {
                runs_of_the_rest(key, 4);
                kept_runs_are_read(rest);
            }
            assert(reread(key) =~= seq![':', ':', ':', ':'] + reread(rest));
            assert(key =~= seq![':', ':', ':', ':'] + rest);
            assert(reread(key).skip(4) =~= reread(rest));
        } else {
            assert(leading_colons(key.skip(0)) == 3);
            assert(!runs_are_kept(key));
            assert(reread(key)[3] == ':');
        }
    } else if colon_at(key, 0) && colon_at(key, 1) {
        leading_colons_of_four(key);
        runs_of_the_rest(key, 2);
        kept_runs_are_read(key.skip(2));
        assert(key =~= seq![':', ':'] + key.skip(2));
        assert(reread(key).skip(2) =~= reread(key.skip(2)));
    } else {
        leading_colons_of_four(key);
        runs_of_the_rest(key, 1);
        kept_runs_are_read(key.skip(1));
        assert(key =~= seq![key[0]] + key.skip(1));
        assert(reread(key).skip(1) =~= reread(key.skip(1)));
    }
}

/// The first colons of a key.
proof fn leading_colons_of_four(key: Seq<char>)
    ensures
        !colon_at(key, 0) ==> leading_colons(key) == 0,
        colon_at(key, 0) && !colon_at(key, 1) ==> leading_colons(key) == 1,
        colon_at(key, 0) && colon_at(key, 1) && !colon_at(key, 2) ==> leading_colons(key) == 2,
        colon_at(key, 0) && colon_at(key, 1) && colon_at(key, 2) ==> if colon_at(key, 3) {
            leading_colons(key) == 4 + leading_colons(key.skip(4))
        } else {
            leading_colons(key) == 3
        },
{
    reveal_with_fuel(leading_colons, 5);
    if key.len() >= 2 {
        assert(key.skip(1).skip(1) =~= key.skip(2));
    }
    if key.len() >= 3 {
        assert(key.skip(2).skip(1) =~= key.skip(3));
    }
    if key.len() >= 4 {
        assert(key.skip(3).skip(1) =~= key.skip(4));
    }
}

/// Joining the parts of a split key gives the key back if and only if no run of colons in it has a
/// length of three, seven, eleven and so on.
pub proof fn join_undoes_split(key: Seq<char>)
    ensures
        join_key(split_key(key)) == key <==> runs_are_kept(key),
{
    kept_runs_are_read(key);
    if key.len() == 0 {
        assert(join_key(split_key(key)) =~= key);
        assert(reread(key) =~= key);
    } else {
        let empty = Seq::<char>::empty();
        join_of_split(key, empty);
        assert(escaped(empty) + reread(key) =~= reread(key));
    }
}

/// Different parts are escaped differently.
pub proof fn escaped_is_injective(left: Seq<char>, right: Seq<char>)
    requires
        escaped(left) == escaped(right),
    ensures
        left == right,
    decreases left.len(),
{
    let text = escaped(left);
    if left.len() == 0 || right.len() == 0 {
        assert(left =~= right);
    } else {
        let left_pair = colon_at(left, 0) && colon_at(left, 1);
        let right_pair = colon_at(right, 0) && colon_at(right, 1);
        if left_pair && right_pair {
            assert(text.skip(4) =~= escaped(left.skip(2)));
            assert(text.skip(4) =~= escaped(right.skip(2)));
            escaped_is_injective(left.skip(2), right.skip(2));
            assert(left =~= seq![':', ':'] + left.skip(2));
            assert(right =~= seq![':', ':'] + right.skip(2));
        } else if left_pair {
            single_colon_is_followed(right);
            assert(colon_at(text, 0) && colon_at(text, 1));
        } else if right_pair {
            single_colon_is_followed(left);
            assert(colon_at(escaped(right), 0) && colon_at(escaped(right), 1));
        } else {
            assert(text[0] == left[0]);
            assert(text[0] == right[0]);
            assert(text.skip(1) =~= escaped(left.skip(1)));
            assert(text.skip(1) =~= escaped(right.skip(1)));
            escaped_is_injective(left.skip(1), right.skip(1));
            assert(left =~= seq![left[0]] + left.skip(1));
            assert(right =~= seq![right[0]] + right.skip(1));
        }
    }
}

/// A part that does not begin with a pair of colons is not escaped to a text that does.
proof fn single_colon_is_followed(part: Seq<char>)
    requires
        part.len() > 0,
        !(colon_at(part, 0) && colon_at(part, 1)),
    ensures
        !(colon_at(escaped(part), 0) && colon_at(escaped(part), 1)),
{
    if part[0] == ':' && part.len() > 1 {
        let tail = part.skip(1);
        assert(tail[0] == part[1]);
        assert(escaped(tail)[0] == tail[0]);
    } else if part[0] == ':' {
        assert(escaped(part.skip(1)) =~= Seq::empty());
    }
}

/// Recoverable parts that differ have different composite keys.
pub proof fn composite_keys_differ(a: Seq<Seq<char>>, b: Seq<Seq<char>>)
    requires
        is_recoverable(a),
        is_recoverable(b),
        a != b,
    ensures
        join_key(a) != join_key(b),
{
    split_undoes_join(a);
    split_undoes_join(b);
}

/// Whether the parts of a composite key can be told from those of another key with as many parts:
/// after a delimiter there is no colon, and between two delimiters there is something.
pub open spec fn can_be_told(parts: Seq<Seq<char>>) -> bool {
    &&& forall|i: int| 1 <= i < parts.len() ==> !colon_at(#[trigger] parts[i], 0)
    &&& forall|i: int| 1 <= i < parts.len() - 1 ==> (#[trigger] parts[i]).len() > 0
}

/// The same the other way round: before a delimiter there is no colon, and between two delimiters
/// there is something.
pub open spec fn can_be_told_from_the_end(parts: Seq<Seq<char>>) -> bool {
    &&& forall|i: int|
        0 <= i < parts.len() - 1 ==> !colon_at(#[trigger] parts[i], parts[i].len() - 1)
    &&& forall|i: int| 1 <= i < parts.len() - 1 ==> (#[trigger] parts[i]).len() > 0
}

/// Whether the parts of two composite keys with as many parts can be told from them.
pub open spec fn can_be_told_apart(a: Seq<Seq<char>>, b: Seq<Seq<char>>) -> bool {
    ||| can_be_told(a) && can_be_told(b)
    ||| can_be_told_from_the_end(a) && can_be_told_from_the_end(b)
}

/// The parts from the last to the first, each from its end to its beginning.
spec fn backwards(parts: Seq<Seq<char>>) -> Seq<Seq<char>> {
    Seq::new(parts.len(), |i: int| parts[parts.len() - 1 - i].reverse())
}

/// A part is escaped alike from both ends.
proof fn escaped_backwards(part: Seq<char>)
    ensures
        escaped(part.reverse()) == escaped(part).reverse(),
    decreases part.len(),
{
    if part.len() == 0 {
        assert(part.reverse() =~= part);
        assert(escaped(part).reverse() =~= escaped(part));
    } else if colon_at(part, 0) && colon_at(part, 1) {
        let tail = part.skip(2);
        escaped_backwards(tail);
        escaped_with_a_pair(tail.reverse());
        assert(part.reverse() =~= tail.reverse() + seq![':', ':']);
        assert(escaped(part).reverse() =~= escaped(tail).reverse() + seq![':', ':', ':', ':']);
    } else {
        let tail = part.skip(1);
        escaped_backwards(tail);
        if part[0] == ':' {
            assert(trailing_colons(tail.reverse()) == 0) by {
                if tail.len() > 0 {
                    assert(tail.reverse().last() == tail[0]);
                }
            }
        }
        escaped_with_one_more(tail.reverse(), part[0]);
        assert(part.reverse() =~= tail.reverse().push(part[0]));
        assert(escaped(part).reverse() =~= escaped(tail).reverse().push(part[0]));
    }
}

/// Parts are joined alike from both ends.
proof fn joined_backwards(parts: Seq<Seq<char>>)
    ensures
        join_key(backwards(parts)) == join_key(parts).reverse(),
    decreases parts.len(),
{
    if parts.len() == 0 {
        assert(join_key(backwards(parts)) =~= join_key(parts).reverse());
    } else if parts.len() == 1 {
        escaped_backwards(parts[0]);
        assert(join_key(parts) =~= escaped(parts[0]));
        assert(join_key(backwards(parts)) =~= escaped(parts[0].reverse()));
    } else {
        let before = parts.drop_last();
        let last = parts.last();
        let delimiter = seq![':', ':'];
        joined_backwards(before);
        escaped_backwards(last);
        joined_with_a_last_part(parts);
        joined_with_a_first_part(last.reverse(), backwards(before));
        assert(backwards(parts) =~= seq![last.reverse()] + backwards(before));
        assert(join_key(parts).reverse() =~= escaped(last).reverse() + delimiter + join_key(
            before,
        ).reverse());
    }
}

/// What can be told from the end can be told backwards.
proof fn told_backwards(parts: Seq<Seq<char>>)
    requires
        can_be_told_from_the_end(parts),
    ensures
        can_be_told(backwards(parts)),
{
    let turned = backwards(parts);
    assert forall|i: int| 1 <= i < turned.len() implies !colon_at(#[trigger] turned[i], 0) by {
        let part = parts[parts.len() - 1 - i];
        assert(!colon_at(part, part.len() - 1));
    }
    assert forall|i: int| 1 <= i < turned.len() - 1 implies (#[trigger] turned[i]).len() > 0 by {
        assert(parts[parts.len() - 1 - i].len() > 0);
    }
}

/// A first part ends where a delimiter is followed by something other than a colon.
proof fn first_parts_are_equal(
    left: Seq<char>,
    right: Seq<char>,
    left_rest: Seq<char>,
    right_rest: Seq<char>,
)
    requires
        !colon_at(left_rest, 0),
        !colon_at(right_rest, 0),
        escaped(left) + seq![':', ':'] + left_rest == escaped(right) + seq![':', ':'] + right_rest,
    ensures
        left == right,
        left_rest == right_rest,
    decreases left.len() + right.len(),
{
    let delimiter = seq![':', ':'];
    let text = escaped(left) + delimiter + left_rest;
    let other = escaped(right) + delimiter + right_rest;
    if left.len() == 0 && right.len() == 0 {
        assert(left =~= right);
        assert(text.skip(2) =~= left_rest);
        assert(other.skip(2) =~= right_rest);
    } else if left.len() == 0 {
        delimiter_is_no_part(right, right_rest, left_rest);
        assert(text =~= delimiter + left_rest);
    } else if right.len() == 0 {
        delimiter_is_no_part(left, left_rest, right_rest);
        assert(other =~= delimiter + right_rest);
    } else {
        let left_pair = colon_at(left, 0) && colon_at(left, 1);
        let right_pair = colon_at(right, 0) && colon_at(right, 1);
        if left_pair && right_pair {
            assert(text.skip(4) =~= escaped(left.skip(2)) + delimiter + left_rest);
            assert(other.skip(4) =~= escaped(right.skip(2)) + delimiter + right_rest);
            first_parts_are_equal(left.skip(2), right.skip(2), left_rest, right_rest);
            assert(left =~= delimiter + left.skip(2));
            assert(right =~= delimiter + right.skip(2));
        } else if left_pair {
            pair_is_no_single_colon(right, right_rest);
            assert(colon_at(text, 0) && colon_at(text, 1) && colon_at(text, 2) && colon_at(
                text,
                3,
            ));
        } else if right_pair {
            pair_is_no_single_colon(left, left_rest);
            assert(colon_at(other, 0) && colon_at(other, 1) && colon_at(other, 2) && colon_at(
                other,
                3,
            ));
        } else {
            assert(text[0] == left[0]);
            assert(other[0] == right[0]);
            assert(text.skip(1) =~= escaped(left.skip(1)) + delimiter + left_rest);
            assert(other.skip(1) =~= escaped(right.skip(1)) + delimiter + right_rest);
            first_parts_are_equal(left.skip(1), right.skip(1), left_rest, right_rest);
            assert(left =~= seq![left[0]] + left.skip(1));
            assert(right =~= seq![right[0]] + right.skip(1));
        }
    }
}

/// A part that is not empty does not read like a delimiter.
proof fn delimiter_is_no_part(part: Seq<char>, rest: Seq<char>, other: Seq<char>)
    requires
        part.len() > 0,
        !colon_at(other, 0),
    ensures
        escaped(part) + seq![':', ':'] + rest != seq![':', ':'] + other,
{
    let text = escaped(part) + seq![':', ':'] + rest;
    let delimiter = seq![':', ':'] + other;
    assert(!colon_at(delimiter, 2)) by {
        if delimiter.len() > 2 {
            assert(delimiter[2] == other[0]);
        }
    }
    if colon_at(part, 0) && colon_at(part, 1) {
        assert(colon_at(text, 2));
    } else {
        single_colon_is_followed(part);
        if part.len() == 1 {
            assert(escaped(part.skip(1)) =~= Seq::empty());
            assert(text[0] == part[0]);
            assert(colon_at(text, 2));
            assert(delimiter[0] == ':');
        } else {
            single_units_are_long(part);
            assert(text[0] == escaped(part)[0]);
            assert(text[1] == escaped(part)[1]);
            assert(delimiter[0] == ':');
            assert(delimiter[1] == ':');
        }
    }
}

/// A part of two characters or more is escaped to as many at least.
proof fn single_units_are_long(part: Seq<char>)
    ensures
        escaped(part).len() >= part.len(),
    decreases part.len(),
{
    if part.len() > 0 {
        if colon_at(part, 0) && colon_at(part, 1) {
            single_units_are_long(part.skip(2));
        } else {
            single_units_are_long(part.skip(1));
        }
    }
}

/// A part that does not begin with a pair of colons, with its delimiter, does not begin with four
/// colons.
proof fn pair_is_no_single_colon(part: Seq<char>, rest: Seq<char>)
    requires
        part.len() > 0,
        !(colon_at(part, 0) && colon_at(part, 1)),
        !colon_at(rest, 0),
    ensures
        ({
            let text = escaped(part) + seq![':', ':'] + rest;
            !(colon_at(text, 0) && colon_at(text, 1) && colon_at(text, 2) && colon_at(text, 3))
        }),
{
    let text = escaped(part) + seq![':', ':'] + rest;
    single_colon_is_followed(part);
    single_units_are_long(part);
    if part.len() == 1 {
        assert(escaped(part.skip(1)) =~= Seq::empty());
        if text.len() > 3 {
            assert(text[3] == rest[0]);
        }
    } else {
        assert(text[0] == escaped(part)[0]);
        assert(text[1] == escaped(part)[1]);
    }
}

/// Different parts, as many in both keys, have different composite keys if they can be told from
/// the beginning.
proof fn parts_tell_keys_from_the_beginning(a: Seq<Seq<char>>, b: Seq<Seq<char>>)
    requires
        a.len() == b.len(),
        can_be_told(a),
        can_be_told(b),
        join_key(a) == join_key(b),
    ensures
        a == b,
    decreases a.len(),
{
    if a.len() == 0 {
        assert(a =~= b);
    } else {
        joined_is_first_and_rest(a);
        joined_is_first_and_rest(b);
        let left = a.skip(1);
        let right = b.skip(1);
        assert(a =~= seq![a[0]] + left);
        assert(b =~= seq![b[0]] + right);
        if a.len() == 1 {
            assert(left =~= Seq::empty());
            assert(right =~= Seq::empty());
            assert(join_key(a) =~= escaped(a[0]));
            assert(join_key(b) =~= escaped(b[0]));
            escaped_is_injective(a[0], b[0]);
        } else {
            joined_with_a_first_part(a[0], left);
            joined_with_a_first_part(b[0], right);
            later_parts_begin_without_colon(a);
            later_parts_begin_without_colon(b);
            first_parts_are_equal(a[0], b[0], join_key(left), join_key(right));
            assert forall|i: int| 0 <= i < left.len() implies #[trigger] left[i] == a[i + 1] by {}
            assert forall|i: int| 0 <= i < right.len() implies #[trigger] right[i] == b[i + 1] by {}
            parts_tell_keys_from_the_beginning(left, right);
        }
    }
}

/// Different parts, as many in both keys, have different composite keys if they can be told apart.
pub proof fn parts_tell_keys(a: Seq<Seq<char>>, b: Seq<Seq<char>>)
    requires
        a.len() == b.len(),
        can_be_told_apart(a, b),
        join_key(a) == join_key(b),
    ensures
        a == b,
{
    if can_be_told(a) && can_be_told(b) {
        parts_tell_keys_from_the_beginning(a, b);
    } else {
        told_backwards(a);
        told_backwards(b);
        joined_backwards(a);
        joined_backwards(b);
        parts_tell_keys_from_the_beginning(backwards(a), backwards(b));
        assert forall|i: int| 0 <= i < a.len() implies #[trigger] a[i] == b[i] by {
            let k = a.len() - 1 - i;
            assert(backwards(a)[k] == a[i].reverse());
            assert(backwards(b)[k] == b[i].reverse());
            assert(a[i].reverse().reverse() =~= a[i]);
            assert(b[i].reverse().reverse() =~= b[i]);
        }
        assert(a =~= b);
    }
}

proof fn later_parts_begin_without_colon(parts: Seq<Seq<char>>)
    requires
        parts.len() > 1,
        can_be_told(parts),
    ensures
        !colon_at(join_key(parts.skip(1)), 0),
{
    let later = parts.skip(1);
    joined_is_first_and_rest(later);
    assert(later[0] == parts[1]);
    if later[0].len() > 0 {
        assert(escaped(later[0])[0] == later[0][0]);
    } else {
        assert(later.skip(1) =~= Seq::empty());
    }
}

/// Composite keys whose parts are the same but for a stretch of them differ if the stretches do and
/// can be told apart. Stretches of one part always can.
pub proof fn stretches_tell_keys(a: Seq<Seq<char>>, b: Seq<Seq<char>>, start: int, end: int)
    requires
        a.len() == b.len(),
        0 <= start <= end <= a.len(),
        forall|i: int|
            0 <= i < a.len() && !(start <= i < end) ==> #[trigger] a[i] == b[i],
        can_be_told_apart(a.subrange(start, end), b.subrange(start, end)),
        a != b,
    ensures
        join_key(a) != join_key(b),
    decreases a.len(),
{
    if start == 0 && end == a.len() {
        assert(a.subrange(start, end) =~= a);
        assert(b.subrange(start, end) =~= b);
        if join_key(a) == join_key(b) {
            parts_tell_keys(a, b);
        }
    } else if a.len() == 1 {
        assert(a =~= b);
    } else if start > 0 {
        let left = a.skip(1);
        let right = b.skip(1);
        assert(a[0] == b[0]);
        assert(a =~= seq![a[0]] + left);
        assert(b =~= seq![b[0]] + right);
        assert(left.subrange(start - 1, end - 1) =~= a.subrange(start, end));
        assert(right.subrange(start - 1, end - 1) =~= b.subrange(start, end));
        assert forall|i: int| 0 <= i < left.len() && !(start - 1 <= i < end - 1) implies (
        #[trigger] left[i]) == right[i] by {
            assert(a[i + 1] == b[i + 1]);
        }
        stretches_tell_keys(left, right, start - 1, end - 1);
        joined_with_a_first_part(a[0], left);
        joined_with_a_first_part(b[0], right);
        let n = escaped(a[0]).len() + 2;
        assert(join_key(a).skip(n as int) =~= join_key(left));
        assert(join_key(b).skip(n as int) =~= join_key(right));
    } else {
        let left = a.drop_last();
        let right = b.drop_last();
        assert(a.last() == b.last()) by {
            assert(a[a.len() - 1] == b[b.len() - 1]);
        }
        assert(a =~= left.push(a.last()));
        assert(b =~= right.push(b.last()));
        assert(left.subrange(start, end) =~= a.subrange(start, end));
        assert(right.subrange(start, end) =~= b.subrange(start, end));
        assert forall|i: int| 0 <= i < left.len() && !(start <= i < end) implies (
        #[trigger] left[i]) == right[i] by {
            assert(a[i] == b[i]);
        }
        stretches_tell_keys(left, right, start, end);
        joined_with_a_last_part(a);
        joined_with_a_last_part(b);
        if join_key(a) == join_key(b) {
            let n = join_key(a).len() - escaped(a.last()).len() - 2;
            assert(join_key(a).take(n) =~= join_key(left));
            assert(join_key(b).take(n) =~= join_key(right));
        }
    }
}

proof fn joined_with_a_last_part(parts: Seq<Seq<char>>)
    requires
        parts.len() > 1,
    ensures
        join_key(parts) == join_key(parts.drop_last()) + seq![':', ':'] + escaped(parts.last()),
{
    let pieces = parts.map_values(|part: Seq<char>| escaped(part));
    assert(pieces.drop_last() =~= parts.drop_last().map_values(|part: Seq<char>| escaped(part)));
}

} // verus!
