//! Keys and predicates say which rows they are of.

use vstd::prelude::*;

use crate::delta::client;
use crate::delta::client::DeltaLakeClient;
use crate::delta::key_set::KeySet;
use crate::delta::keys;
use crate::laws::texts::tells;
use crate::text;
use crate::types::schema;
use crate::types::schema::primary_key_positions;
use crate::types::{Cell, ColumnSchema, TableRow, TableSchema};

verus! {

/// What a text stands for in which a character is written twice.
pub open spec fn undoubled(whole: Seq<char>, c: char) -> Seq<char>
    decreases whole.len(),
{
    if whole.len() == 0 {
        Seq::empty()
    } else if whole.len() > 1 && whole.last() == c {
        undoubled(whole.drop_last().drop_last(), c).push(c)
    } else {
        undoubled(whole.drop_last(), c).push(whole.last())
    }
}

proof fn doubled_is_read_again(s: Seq<char>, c: char)
    ensures
        undoubled(text::doubled(s, c), c) == s,
    decreases s.len(),
{
    if s.len() > 0 {
        doubled_is_read_again(s.drop_last(), c);
        let whole = text::doubled(s, c);
        if s.last() == c {
            assert(whole.drop_last().drop_last() =~= text::doubled(s.drop_last(), c));
        } else {
            assert(whole.drop_last() =~= text::doubled(s.drop_last(), c));
        }
        assert(undoubled(whole, c) =~= s);
    }
}

/// A name stands between backticks in a predicate, and can be read there again.
pub proof fn names_are_read_again(name: &str, escaped: String)
    requires
        call_ensures(DeltaLakeClient::escape_identifier, (name,), escaped),
    ensures
        escaped@.len() >= 2,
        escaped@[0] == '`',
        escaped@.last() == '`',
        undoubled(escaped@.subrange(1, escaped@.len() - 1), '`') == name@,
{
    doubled_is_read_again(name@, '`');
    assert(escaped@.subrange(1, escaped@.len() - 1) =~= text::doubled(name@, '`'));
}

/// A value stands between single quotes in a predicate, and can be read there again.
pub proof fn values_are_read_again(value: &str, escaped: String)
    requires
        call_ensures(DeltaLakeClient::escape_string_literal, (value,), escaped),
    ensures
        escaped@.len() >= 2,
        escaped@[0] == '\'',
        escaped@.last() == '\'',
        undoubled(escaped@.subrange(1, escaped@.len() - 1), '\'') == value@,
{
    doubled_is_read_again(value@, '\'');
    assert(escaped@.subrange(1, escaped@.len() - 1) =~= text::doubled(value@, '\''));
}

/// The text of a value within a key tells the value.
pub proof fn key_values_are_told(cell: &Cell, whole: String)
    requires
        call_ensures(DeltaLakeClient::cell_to_string, (cell,), whole),
    ensures
        tells(whole@, *cell),
{
}

/// Without keys, or without key columns, a predicate is true of no row.
pub proof fn nothing_is_true_without_keys(
    client: &DeltaLakeClient,
    primary_keys: &KeySet,
    names: &[String],
    predicate: String,
)
    requires
        call_ensures(
            DeltaLakeClient::build_pk_predicate,
            (client, primary_keys, names),
            predicate,
        ),
        primary_keys@.len() == 0 || names@.len() == 0,
    ensures
        predicate@ == "false"@,
{
}

/// With one key column, a predicate is true where the value of the column is one of the keys.
pub proof fn one_column_is_one_of_the_keys(
    client: &DeltaLakeClient,
    primary_keys: &KeySet,
    names: &[String],
    predicate: String,
    literals: Seq<Seq<char>>,
)
    requires
        call_ensures(
            DeltaLakeClient::build_pk_predicate,
            (client, primary_keys, names),
            predicate,
        ),
        primary_keys@.len() > 0,
        names@.len() == 1,
        literals.len() == primary_keys@.len(),
        forall|i: int|
            0 <= i < literals.len() ==> #[trigger] literals[i] == seq!['\''] + text::doubled(
                primary_keys@[i],
                '\'',
            ) + seq!['\''],
    ensures
        predicate@ == seq!['`'] + text::doubled(names@[0]@, '`') + seq!['`'] + " IN ("@
            + text::joined(literals, ", "@) + ")"@,
{
    assert(text::texts(names@)[0] == names@[0]@);
    assert(literals =~= primary_keys@.map_values(|key: Seq<char>| client::string_literal(key)));
}

/// With several key columns, one more key is one more alternative, if it has a part for every
/// column: then each column has the value of its part. A key with another number of parts is left
/// out.
pub proof fn one_more_key_is_one_more_alternative(
    client: &DeltaLakeClient,
    fewer: &KeySet,
    more: &KeySet,
    names: &[String],
    before: String,
    after: String,
    key: &str,
    parts: Vec<String>,
    equalities: Seq<Seq<char>>,
)
    requires
        call_ensures(DeltaLakeClient::build_pk_predicate, (client, fewer, names), before),
        call_ensures(DeltaLakeClient::build_pk_predicate, (client, more, names), after),
        names@.len() > 1,
        more@ == fewer@.push(key@),
        call_ensures(DeltaLakeClient::split_composite_key, (key,), parts),
        equalities.len() == names@.len(),
        forall|i: int|
            0 <= i < names@.len() && parts@.len() == names@.len() ==> #[trigger] equalities[i]
                == seq!['`'] + text::doubled(names@[i]@, '`') + seq!['`'] + " = "@ + seq!['\'']
                + text::doubled(parts@[i]@, '\'') + seq!['\''],
    ensures
        parts@.len() != names@.len() ==> after@ == before@,
        parts@.len() == names@.len() ==> {
            let alternative = "("@ + text::joined(equalities, " AND "@) + ")"@;
            if before@ == "false"@ {
                after@ == alternative
            } else {
                after@ == before@ + " OR "@ + alternative
            }
        },
{
    let columns = text::texts(names@);
    assert(more@.drop_last() =~= fewer@);
    assert(more@.last() == key@);
    let values = keys::split_key(key@);
    assert(text::texts(parts@) == values);
    let conditions = client::key_conditions(fewer@, columns);
    let wider = client::key_conditions(more@, columns);
    if parts@.len() == names@.len() {
        assert forall|i: int| 0 <= i < names@.len() implies #[trigger] equalities[i]
            == client::equality(columns[i], values[i]) by {
            assert(columns[i] == names@[i]@);
            assert(values[i] == parts@[i]@);
            assert(equalities[i] =~= client::equality(columns[i], values[i]));
        }
        assert(equalities =~= Seq::new(
            columns.len(),
            |i: int| client::equality(columns[i], values[i]),
        ));
        let alternative = "("@ + text::joined(equalities, " AND "@) + ")"@;
        assert(wider == conditions.push(alternative));
        assert(wider.drop_last() =~= conditions);
        if conditions.len() > 0 {
            conditions_are_in_brackets(fewer@, columns);
            joined_begins_with_the_first(conditions, " OR "@);
            assert(before@[0] == '(');
            reveal_strlit("false");
            assert("false"@[0] == 'f');
        } else {
            assert(fewer@.len() == 0 ==> before@ == "false"@);
            assert(wider =~= seq![alternative]);
        }
    }
    if fewer@.len() == 0 {
        assert(conditions =~= Seq::empty());
    }
}

proof fn conditions_are_in_brackets(primary_keys: Seq<Seq<char>>, columns: Seq<Seq<char>>)
    ensures
        forall|i: int|
            0 <= i < client::key_conditions(primary_keys, columns).len() ==> (
            #[trigger] client::key_conditions(primary_keys, columns)[i]).len() > 0
                && client::key_conditions(primary_keys, columns)[i][0] == '(',
    decreases primary_keys.len(),
{
    reveal_strlit("(");
    if primary_keys.len() > 0 {
        conditions_are_in_brackets(primary_keys.drop_last(), columns);
        let conditions = client::key_conditions(primary_keys, columns);
        let before = client::key_conditions(primary_keys.drop_last(), columns);
        assert forall|i: int| 0 <= i < conditions.len() implies (#[trigger] conditions[i]).len() > 0
            && conditions[i][0] == '(' by {
            if i < before.len() {
                assert(conditions[i] == before[i]);
            }
        }
    }
}

proof fn joined_begins_with_the_first(parts: Seq<Seq<char>>, separator: Seq<char>)
    requires
        parts.len() > 0,
        parts[0].len() > 0,
    ensures
        text::joined(parts, separator).len() > 0,
        text::joined(parts, separator)[0] == parts[0][0],
    decreases parts.len(),
{
    if parts.len() > 1 {
        joined_begins_with_the_first(parts.drop_last(), separator);
        assert(parts.drop_last()[0] == parts[0]);
    }
}

/// The positions of the key columns are those of exactly the columns that are part of the primary
/// key, in order.
pub proof fn key_positions_are_those_of_key_columns(columns: &[ColumnSchema], positions: Vec<usize>)
    requires
        call_ensures(primary_key_positions, (columns,), positions),
    ensures
        forall|k: int|
            0 <= k < positions@.len() ==> (#[trigger] positions@[k]) < columns@.len()
                && columns@[positions@[k] as int].primary,
        forall|i: int, k: int|
            0 <= i < k < positions@.len() ==> #[trigger] positions@[i] < #[trigger] positions@[k],
        forall|column: int|
            0 <= column < columns@.len() && (#[trigger] columns@[column]).primary ==> exists|k: int|
                0 <= k < positions@.len() && #[trigger] positions@[k] == column,
{
    let indices = schema::primary_key_indices(columns@);
    let mapped = positions@.map_values(|i: usize| i as int);
    assert(mapped == indices);
    schema::primary_key_indices_are_columns(columns@);
    assert forall|k: int| 0 <= k < positions@.len() implies (#[trigger] positions@[k])
        < columns@.len() && columns@[positions@[k] as int].primary by {
        assert(mapped[k] == positions@[k]);
        assert(0 <= indices[k] < columns@.len());
    }
    assert forall|i: int, k: int| 0 <= i < k < positions@.len() implies #[trigger] positions@[i]
        < #[trigger] positions@[k] by {
        schema::primary_key_indices_ascend(columns@, i, k);
        assert(mapped[i] == positions@[i]);
        assert(mapped[k] == positions@[k]);
    }
    assert forall|column: int|
        0 <= column < columns@.len() && (#[trigger] columns@[column]).primary implies exists|k: int|
        0 <= k < positions@.len() && #[trigger] positions@[k] == column by {
        let k = schema::primary_column_has_index(columns@, column);
        assert(mapped[k] == positions@[k]);
    }
}

/// The names of the key columns are those at their positions.
pub proof fn key_names_are_those_of_key_columns(
    table_schema: &TableSchema,
    columns: &[ColumnSchema],
    positions: Vec<usize>,
    names: Vec<String>,
)
    requires
        columns@ == table_schema.column_schemas@,
        call_ensures(primary_key_positions, (columns,), positions),
        call_ensures(DeltaLakeClient::get_primary_key_columns, (table_schema,), names),
    ensures
        names@.len() == positions@.len(),
        forall|k: int|
            0 <= k < names@.len() ==> (#[trigger] names@[k])@
                == columns@[positions@[k] as int].name@,
{
    let mapped = positions@.map_values(|i: usize| i as int);
    let texts = text::texts(names@);
    assert(mapped == schema::primary_key_indices(columns@));
    assert(texts.len() == mapped.len());
    assert forall|k: int| 0 <= k < names@.len() implies (#[trigger] names@[k])@
        == columns@[positions@[k] as int].name@ by {
        assert(texts[k] == names@[k]@);
        assert(mapped[k] == positions@[k]);
    }
}

/// A row has a key exactly if there is a key column and the row reaches all of them.
pub proof fn rows_with_all_key_columns_have_a_key(
    client: &DeltaLakeClient,
    row: &TableRow,
    table_schema: &TableSchema,
    key: Result<String, String>,
)
    requires
        call_ensures(DeltaLakeClient::extract_primary_key, (client, row, table_schema), key),
    ensures
        ({
            let columns = table_schema.column_schemas@;
            &&& key is Ok <==> (exists|i: int|
                0 <= i < columns.len() && (#[trigger] columns[i]).primary) && (forall|i: int|
                0 <= i < columns.len() && (#[trigger] columns[i]).primary ==> i < row.values@.len())
            &&& (forall|i: int| 0 <= i < columns.len() ==> !(#[trigger] columns[i]).primary) ==> (
            key matches Err(message) && message@ == "No primary key columns found in table schema"@)
        }),
{
    let columns = table_schema.column_schemas@;
    let indices = schema::primary_key_indices(columns);
    schema::primary_key_indices_are_columns(columns);
    if key is Ok {
        assert forall|i: int| 0 <= i < columns.len() && (#[trigger] columns[i]).primary implies i
            < row.values@.len() by {
            let k = schema::primary_column_has_index(columns, i);
            assert(indices[k] == i);
        }
    }
    if indices.len() > 0 && exists|k: int|
        0 <= k < indices.len() && #[trigger] indices[k] >= row.values@.len() {
        let k = choose|k: int| 0 <= k < indices.len() && #[trigger] indices[k] >= row.values@.len();
        assert(columns[indices[k]].primary);
    }
}

/// A row that ends before a key column has no key: the first such column is told, and how many
/// cells the row has.
pub proof fn missing_key_columns_are_told(
    client: &DeltaLakeClient,
    row: &TableRow,
    table_schema: &TableSchema,
    key: Result<String, String>,
    column: int,
)
    requires
        call_ensures(DeltaLakeClient::extract_primary_key, (client, row, table_schema), key),
        row.values@.len() <= column < table_schema.column_schemas@.len(),
        table_schema.column_schemas@[column].primary,
        forall|i: int|
            row.values@.len() <= i < column ==> !(#[trigger] table_schema.column_schemas@[i]).primary,
    ensures
        key matches Err(message) && message@ == "Primary key column index "@ + text::decimal(
            column as nat,
        ) + " out of bounds for row with "@ + text::decimal(row.values@.len()) + " columns"@,
{
    let columns = table_schema.column_schemas@;
    let indices = schema::primary_key_indices(columns);
    let width = row.values@.len() as int;
    let k = schema::primary_column_has_index(columns, column);
    assert(indices[k] >= width);
    schema::primary_key_indices_are_columns(columns);
    assert forall|j: int| 0 <= j < k implies #[trigger] indices[j] < width by {
        schema::primary_key_indices_ascend(columns, j, k);
        assert(columns[indices[j]].primary);
    }
    first_beyond_is_found(indices, width, k);
}

proof fn first_beyond_is_found(numbers: Seq<int>, limit: int, k: int)
    requires
        0 <= k < numbers.len(),
        numbers[k] >= limit,
        forall|j: int| 0 <= j < k ==> #[trigger] numbers[j] < limit,
    ensures
        client::first_beyond(numbers, limit) == k,
    decreases k,
{
    if k > 0 {
        assert(numbers[0] < limit);
        let rest = numbers.skip(1);
        assert forall|j: int| 0 <= j < k - 1 implies #[trigger] rest[j] < limit by {
            assert(rest[j] == numbers[j + 1]);
        }
        first_beyond_is_found(rest, limit, k - 1);
    }
}

/// The key of a row is the text of its only key column, or the composite key of the texts of all of
/// them, in order.
pub proof fn keys_are_made_of_key_columns(
    client: &DeltaLakeClient,
    row: &TableRow,
    table_schema: &TableSchema,
    key: String,
    columns: &[ColumnSchema],
    positions: Vec<usize>,
    parts: &[String],
    joined: String,
)
    requires
        call_ensures(
            DeltaLakeClient::extract_primary_key,
            (client, row, table_schema),
            Ok::<_, String>(key),
        ),
        columns@ == table_schema.column_schemas@,
        call_ensures(primary_key_positions, (columns,), positions),
        parts@.len() == positions@.len(),
        forall|k: int|
            0 <= k < parts@.len() ==> call_ensures(
                DeltaLakeClient::cell_to_string,
                (&row.values@[positions@[k] as int],),
                #[trigger] parts@[k],
            ),
        call_ensures(DeltaLakeClient::join_composite_key, (parts,), joined),
    ensures
        parts@.len() >= 1,
        parts@.len() == 1 ==> key@ == parts@[0]@,
        parts@.len() > 1 ==> key@ == joined@,
{
    let indices = schema::primary_key_indices(columns@);
    let mapped = positions@.map_values(|i: usize| i as int);
    assert(mapped == indices);
    let texts = text::texts(parts@);
    let expected = indices.map_values(|i: int| client::key_text(row.values@[i]));
    assert forall|k: int| 0 <= k < texts.len() implies #[trigger] texts[k] == expected[k] by {
        assert(mapped[k] == positions@[k]);
        assert(texts[k] == parts@[k]@);
    }
    assert(texts =~= expected);
    if parts@.len() == 1 {
        assert(texts[0] == parts@[0]@);
        assert(expected[0] == client::key_text(row.values@[indices[0]]));
    }
}

/// Whether a text has no two colons one after the other, and none at its end.
pub open spec fn is_without_delimiter(s: Seq<char>) -> bool {
    &&& forall|i: int| 0 <= i < s.len() - 1 ==> !(#[trigger] s[i] == ':' && s[i + 1] == ':')
    &&& s.len() > 0 ==> s.last() != ':'
}

/// The parts of a key stand one after the other, with two colons between them.
pub proof fn parts_stand_between_colons(
    parts: &[String],
    more: &[String],
    last: &[String],
    before: String,
    after: String,
    end: String,
)
    requires
        parts@.len() > 0,
        last@.len() == 1,
        more@ == parts@ + last@,
        call_ensures(DeltaLakeClient::join_composite_key, (parts,), before),
        call_ensures(DeltaLakeClient::join_composite_key, (more,), after),
        call_ensures(DeltaLakeClient::join_composite_key, (last,), end),
    ensures
        after@ == before@ + seq![':', ':'] + end@,
{
    let escape = |part: Seq<char>| keys::escaped(part);
    let a = text::texts(parts@).map_values(escape);
    let b = text::texts(more@).map_values(escape);
    let c = text::texts(last@).map_values(escape);
    assert(b.drop_last() =~= a);
    assert(b.last() == c[0]);
}

/// A part without two colons stands in a key as it is. Two colons in a part become four, from the
/// left.
pub proof fn colons_in_parts_are_told_from_those_between_them(
    whole: &[String],
    rest: &[String],
    head: Seq<char>,
    key: String,
    tail: String,
)
    requires
        whole@.len() == 1,
        rest@.len() == 1,
        is_without_delimiter(head),
        call_ensures(DeltaLakeClient::join_composite_key, (whole,), key),
        call_ensures(DeltaLakeClient::join_composite_key, (rest,), tail),
    ensures
        whole@[0]@ == head ==> key@ == head,
        whole@[0]@ == head + seq![':', ':'] + rest@[0]@ ==> key@ == head + seq![':', ':', ':', ':']
            + tail@,
{
    let escape = |part: Seq<char>| keys::escaped(part);
    let a = text::texts(whole@).map_values(escape);
    let b = text::texts(rest@).map_values(escape);
    assert(a[0] == keys::escaped(whole@[0]@));
    assert(b[0] == keys::escaped(rest@[0]@));
    if whole@[0]@ == head {
        plain_text_is_kept(head, Seq::empty());
        assert(head + Seq::<char>::empty() =~= head);
        assert(head + keys::escaped(Seq::empty()) =~= head);
    }
    if whole@[0]@ == head + seq![':', ':'] + rest@[0]@ {
        let after = seq![':', ':'] + rest@[0]@;
        plain_text_is_kept(head, after);
        assert(head + seq![':', ':'] + rest@[0]@ =~= head + after);
        assert(after.skip(2) =~= rest@[0]@);
        assert(key@ =~= head + seq![':', ':', ':', ':'] + tail@);
    }
}

proof fn plain_text_is_kept(head: Seq<char>, rest: Seq<char>)
    requires
        is_without_delimiter(head),
    ensures
        keys::escaped(head + rest) == head + keys::escaped(rest),
    decreases head.len(),
{
    if head.len() == 0 {
        assert(head + rest =~= rest);
        assert(head + keys::escaped(rest) =~= keys::escaped(rest));
    } else {
        let tail = head.skip(1);
        assert forall|i: int| 0 <= i < tail.len() - 1 implies !(#[trigger] tail[i] == ':' && tail[i
            + 1] == ':') by {
            assert(!(head[i + 1] == ':' && head[i + 2] == ':'));
        }
        plain_text_is_kept(tail, rest);
        assert((head + rest).skip(1) =~= tail + rest);
        assert(!(head[0] == ':' && head.len() > 1 && head[1] == ':'));
        assert(keys::escaped(head + rest) =~= head + keys::escaped(rest));
    }
}

/// Reading a key gives what stands before the first two colons as the first part, and then the
/// parts of what follows. Four colons are two colons within a part. A key without two colons has
/// itself as its only part, and an empty key has none.
pub proof fn keys_are_read_part_by_part(
    key: &str,
    rest: &str,
    head: Seq<char>,
    parts: Vec<String>,
    others: Vec<String>,
)
    requires
        is_without_delimiter(head),
        rest@.len() > 0,
        rest@[0] != ':',
        call_ensures(DeltaLakeClient::split_composite_key, (key,), parts),
        call_ensures(DeltaLakeClient::split_composite_key, (rest,), others),
    ensures
        key@.len() == 0 ==> parts@.len() == 0,
        key@ == head && head.len() > 0 ==> text::texts(parts@) == seq![head],
        key@ == head + seq![':', ':'] + rest@ ==> text::texts(parts@) == seq![head] + text::texts(
            others@,
        ),
        key@ == head + seq![':', ':', ':', ':'] + rest@ ==> text::texts(parts@) == text::texts(
            others@,
        ).update(0, head + seq![':', ':'] + text::texts(others@)[0]),
{
    let empty = Seq::<char>::empty();
    if key@.len() == 0 {
        assert(text::texts(parts@).len() == 0);
    }
    if key@ == head && head.len() > 0 {
        plain_text_is_read(head, empty, empty);
        assert(head + empty =~= head);
        assert(empty + head =~= head);
    }
    if key@ == head + seq![':', ':'] + rest@ {
        let after = seq![':', ':'] + rest@;
        plain_text_is_read(head, after, empty);
        assert(key@ =~= head + after);
        assert(empty + head =~= head);
        assert(after.skip(2) =~= rest@);
        assert(!keys::colon_at(after, 2));
    }
    if key@ == head + seq![':', ':', ':', ':'] + rest@ {
        let after = seq![':', ':', ':', ':'] + rest@;
        plain_text_is_read(head, after, empty);
        assert(key@ =~= head + after);
        assert(empty + head =~= head);
        assert(after.skip(4) =~= rest@);
        assert(keys::split_from(after, head) == keys::split_from(rest@, head + seq![':', ':']));
        read_text_comes_first(rest@, head + seq![':', ':'], empty);
        assert(head + seq![':', ':'] + empty =~= head + seq![':', ':']);
    }
}

proof fn plain_text_is_read(head: Seq<char>, rest: Seq<char>, read: Seq<char>)
    requires
        is_without_delimiter(head),
    ensures
        keys::split_from(head + rest, read) == keys::split_from(rest, read + head),
    decreases head.len(),
{
    if head.len() == 0 {
        assert(head + rest =~= rest);
        assert(read + head =~= read);
    } else {
        let tail = head.skip(1);
        assert forall|i: int| 0 <= i < tail.len() - 1 implies !(#[trigger] tail[i] == ':' && tail[i
            + 1] == ':') by {
            assert(!(head[i + 1] == ':' && head[i + 2] == ':'));
        }
        plain_text_is_read(tail, rest, read.push(head[0]));
        assert((head + rest).skip(1) =~= tail + rest);
        assert(!(head[0] == ':' && head.len() > 1 && head[1] == ':'));
        assert(read.push(head[0]) + tail =~= read + head);
    }
}

proof fn read_text_comes_first(key: Seq<char>, first: Seq<char>, second: Seq<char>)
    ensures
        keys::split_from(key, second).len() > 0,
        keys::split_from(key, first + second) == keys::split_from(key, second).update(
            0,
            first + keys::split_from(key, second)[0],
        ),
    decreases key.len(),
{
    let parts = keys::split_from(key, second);
    if key.len() == 0 {
        assert(keys::split_from(key, first + second) =~= parts.update(0, first + parts[0]));
    } else if keys::colon_at(key, 0) && keys::colon_at(key, 1) && keys::colon_at(key, 2) {
        let n: int = if key.len() < 4 {
            3
        } else {
            4
        };
        read_text_comes_first(key.skip(n), first, second + seq![':', ':']);
        assert(first + (second + seq![':', ':']) =~= first + second + seq![':', ':']);
    } else if keys::colon_at(key, 0) && keys::colon_at(key, 1) {
        assert(keys::split_from(key, first + second) =~= parts.update(0, first + parts[0]));
    } else {
        read_text_comes_first(key.skip(1), first, second.push(key[0]));
        assert(first + second.push(key[0]) =~= (first + second).push(key[0]));
    }
}

/// The identifier of a write begins with the pipeline and the table that it is of, and ends with
/// its number.
pub proof fn writes_are_told_by_their_identifiers(
    client: &DeltaLakeClient,
    pipeline_id: &str,
    table_name: &str,
    sequence: u64,
    id: String,
)
    requires
        call_ensures(
            DeltaLakeClient::generate_app_transaction_id,
            (client, pipeline_id, table_name, sequence),
            id,
        ),
    ensures
        id@ == "etl-"@ + pipeline_id@ + "-"@ + table_name@ + "-"@ + text::decimal(sequence as nat),
{
}

} // verus!
