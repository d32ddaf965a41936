//! The keys, predicates and identifiers that a Delta table is addressed with.

use std::collections::HashMap;

use vstd::prelude::*;

use crate::delta::key_set::KeySet;
use crate::delta::keys;
use crate::delta::keys::{COMPOSITE_KEY_DELIMITER, COMPOSITE_KEY_ESCAPE_REPLACEMENT};
use crate::text;
use crate::types::cell;
use crate::types::schema;
use crate::types::{Cell, TableRow, TableSchema};

verus! {

broadcast use {text::texts_of_push, text::take_one_more};

/// A column name within backticks, with every backtick in it doubled.
pub open spec fn identifier(name: Seq<char>) -> Seq<char> {
    seq!['`'] + text::doubled(name, '`') + seq!['`']
}

/// A text within single quotes, with every single quote in it doubled.
pub open spec fn string_literal(value: Seq<char>) -> Seq<char> {
    seq!['\''] + text::doubled(value, '\'') + seq!['\'']
}

/// The condition that a column has a value.
pub open spec fn equality(column: Seq<char>, value: Seq<char>) -> Seq<char> {
    identifier(column) + " = "@ + string_literal(value)
}

/// The condition that the key columns have the values of one composite key.
pub open spec fn key_condition(values: Seq<Seq<char>>, columns: Seq<Seq<char>>) -> Seq<char> {
    "("@ + text::joined(
        Seq::new(columns.len(), |i: int| equality(columns[i], values[i])),
        " AND "@,
    ) + ")"@
}

/// The conditions for those composite keys that have a value for every key column.
pub open spec fn key_conditions(keys: Seq<Seq<char>>, columns: Seq<Seq<char>>) -> Seq<Seq<char>>
    decreases keys.len(),
{
    if keys.len() == 0 {
        Seq::empty()
    } else {
        let before = key_conditions(keys.drop_last(), columns);
        let values = keys::split_key(keys.last());
        if values.len() == columns.len() {
            before.push(key_condition(values, columns))
        } else {
            before
        }
    }
}

/// The predicate that is true of the rows that have one of the keys.
pub open spec fn pk_predicate(keys: Seq<Seq<char>>, columns: Seq<Seq<char>>) -> Seq<char> {
    if keys.len() == 0 || columns.len() == 0 {
        "false"@
    } else if columns.len() == 1 {
        identifier(columns[0]) + " IN ("@ + text::joined(
            keys.map_values(|key: Seq<char>| string_literal(key)),
            ", "@,
        ) + ")"@
    } else {
        let conditions = key_conditions(keys, columns);
        if conditions.len() == 0 {
            "false"@
        } else {
            text::joined(conditions, " OR "@)
        }
    }
}

/// The text of a value within a primary key.
pub open spec fn key_text(cell: Cell) -> Seq<char> {
    match cell {
        Cell::Null => "NULL"@,
        Cell::Bool(b) => text::bool_word(b),
        Cell::String(s) => s@,
        Cell::I16(i) => text::signed_decimal(i as int),
        Cell::I32(i) => text::signed_decimal(i as int),
        Cell::I64(i) => text::signed_decimal(i as int),
        Cell::U32(i) => text::decimal(i as nat),
        Cell::F32(bits) => cell::float32_text(bits),
        Cell::F64(bits) => cell::float64_text(bits),
        Cell::Numeric(n) => n.text@,
        Cell::Date(d) => d.text(),
        Cell::Time(t) => t.text(),
        Cell::Timestamp(ts) => ts.text_with(' '),
        Cell::TimestampTz(ts) => ts.text_with(' ') + " UTC"@,
        Cell::Uuid(u) => cell::uuid_text(u.bytes@),
        Cell::Json(j) => j.text@,
        Cell::Bytes(b) => "\\x"@ + text::hex(b@),
        Cell::Array(_) => "[ARRAY]"@,
    }
}

/// The primary key of a row, or why it has none: the schema may have no key columns, and the
/// row may end before one of them.
pub open spec fn primary_key(row: TableRow, table: TableSchema) -> Result<Seq<char>, Seq<char>> {
    let indices = schema::primary_key_indices(table.column_schemas@);
    let width = row.values@.len();
    if indices.len() == 0 {
        Err("No primary key columns found in table schema"@)
    } else if exists|k: int| 0 <= k < indices.len() && #[trigger] indices[k] >= width {
        let k = first_beyond(indices, width as int);
        Err(
            "Primary key column index "@ + text::decimal(indices[k] as nat)
                + " out of bounds for row with "@ + text::decimal(width) + " columns"@,
        )
    } else if indices.len() == 1 {
        Ok(key_text(row.values@[indices[0]]))
    } else {
        Ok(keys::join_key(indices.map_values(|i: int| key_text(row.values@[i]))))
    }
}

/// The position of the first number that is not below `limit`.
pub open spec fn first_beyond(numbers: Seq<int>, limit: int) -> int
    decreases numbers.len(),
{
    if numbers.len() == 0 || numbers[0] >= limit {
        0
    } else {
        1 + first_beyond(numbers.skip(1), limit)
    }
}

/// The identifier of a write.
pub open spec fn transaction_id(
    pipeline_id: Seq<char>,
    table_name: Seq<char>,
    sequence: nat,
) -> Seq<char> {
    "etl-"@ + pipeline_id + "-"@ + table_name + "-"@ + text::decimal(sequence)
}

/// A client for Delta tables.
#[derive(Debug, Clone)]
pub struct DeltaLakeClient {
    storage_options: Option<HashMap<String, String>>,
}

impl Default for DeltaLakeClient {
    fn default() -> (client: Self)
        ensures
            client.options() is None,
    {
        Self::new(None)
    }
}

impl DeltaLakeClient {
    /// The options that the client hands to the object store.
    pub closed spec fn options(&self) -> Option<HashMap<String, String>> {
        self.storage_options
    }

    /// A client with these options for the object store.
    pub fn new(storage_options: Option<HashMap<String, String>>) -> (client: Self)
        ensures
            client.options() == storage_options,
    {
        DeltaLakeClient { storage_options }
    }

    /// The options that the client hands to the object store.
    pub fn storage_options(&self) -> (options: &Option<HashMap<String, String>>)
        ensures
            *options == self.options(),
    {
        &self.storage_options
    }

    /// The predicate that is true of the rows that have one of the keys: no rows where there
    /// are no keys or no key columns. A composite key that does not have a value for every key
    /// column is left out.
    pub fn build_pk_predicate(&self, primary_keys: &KeySet, pk_column_names: &[String]) -> (predicate:
        String)
        ensures
            predicate@ == pk_predicate(primary_keys@, text::texts(pk_column_names@)),
    {
        let ghost columns = text::texts(pk_column_names@);
        if primary_keys.is_empty() {
            return "false".to_string();
        }
        if pk_column_names.len() == 0 {
            return "false".to_string();
        }
        let keys = primary_keys.keys();
        if pk_column_names.len() == 1 {
            let mut literals: Vec<String> = Vec::new();
            let mut i: usize = 0;
            while i < keys.len()
                invariant
                    i <= keys@.len(),
                    text::texts(literals@) == text::texts(keys@).take(i as int).map_values(
                        |key: Seq<char>| string_literal(key),
                    ),
                decreases keys@.len() - i,
            {
                literals.push(Self::escape_string_literal(keys[i].as_str()));
                assert(text::texts(literals@) =~= text::texts(keys@).take(i as int + 1).map_values(
                    |key: Seq<char>| string_literal(key),
                ));
                i += 1;
            }
            assert(text::texts(keys@).take(i as int) =~= text::texts(keys@));
            let mut predicate = Self::escape_identifier(pk_column_names[0].as_str());
            predicate.append(" IN (");
            predicate.append(text::joined_text(literals.as_slice(), ", ").as_str());
            predicate.append(")");
            assert(columns[0] == pk_column_names@[0]@);
            predicate
        } else {
            let mut conditions: Vec<String> = Vec::new();
            let mut i: usize = 0;
            assert(text::texts(conditions@) =~= key_conditions(
                text::texts(keys@).take(0),
                columns,
            ));
            while i < keys.len()
                invariant
                    i <= keys@.len(),
                    columns == text::texts(pk_column_names@),
                    text::texts(conditions@) == key_conditions(
                        text::texts(keys@).take(i as int),
                        columns,
                    ),
                decreases keys@.len() - i,
            {
                let ghost before = text::texts(conditions@);
                let key_parts = Self::split_composite_key(keys[i].as_str());
                let ghost read = text::texts(keys@).take(i as int + 1);
                assert(read.drop_last() =~= text::texts(keys@).take(i as int));
                assert(read.last() == keys@[i as int]@);
                if key_parts.len() == pk_column_names.len() {
                    let condition = Self::key_condition_text(&key_parts, pk_column_names);
                    conditions.push(condition);
                    assert(text::texts(conditions@) =~= before.push(condition@));
                }
                i += 1;
            }
            assert(text::texts(keys@).take(i as int) =~= text::texts(keys@));
            if conditions.is_empty() {
                "false".to_string()
            } else {
                text::joined_text(conditions.as_slice(), " OR ")
            }
        }
    }

    fn key_condition_text(values: &Vec<String>, columns: &[String]) -> (condition: String)
        requires
            values@.len() == columns@.len(),
        ensures
            condition@ == key_condition(text::texts(values@), text::texts(columns@)),
    {
        let ghost whole = Seq::new(
            columns@.len(),
            |i: int| equality(text::texts(columns@)[i], text::texts(values@)[i]),
        );
        let mut equalities: Vec<String> = Vec::new();
        let mut i: usize = 0;
        while i < columns.len()
            invariant
                i <= columns@.len(),
                values@.len() == columns@.len(),
                whole == Seq::new(
                    columns@.len(),
                    |i: int| equality(text::texts(columns@)[i], text::texts(values@)[i]),
                ),
                text::texts(equalities@) == whole.take(i as int),
            decreases columns@.len() - i,
        {
            let mut equality_text = Self::escape_identifier(columns[i].as_str());
            equality_text.append(" = ");
            equality_text.append(Self::escape_string_literal(values[i].as_str()).as_str());
            equalities.push(equality_text);
            assert(text::texts(equalities@) =~= whole.take(i as int + 1));
            i += 1;
        }
        assert(whole.take(i as int) =~= whole);
        assert(text::texts(columns@).len() == columns@.len());
        let mut condition = "(".to_string();
        condition.append(text::joined_text(equalities.as_slice(), " AND ").as_str());
        condition.append(")");
        condition
    }

    /// The identifier of a write, by which a repeated write can be told.
    pub fn generate_app_transaction_id(
        &self,
        pipeline_id: &str,
        table_name: &str,
        sequence: u64,
    ) -> (id: String)
        ensures
            id@ == transaction_id(pipeline_id@, table_name@, sequence as nat),
    {
        let mut id = "etl-".to_string();
        id.append(pipeline_id);
        id.append("-");
        id.append(table_name);
        id.append("-");
        text::push_decimal(&mut id, sequence);
        id
    }

    /// The primary key of a row: the text of the only key column, or the texts of all of them
    /// joined.
    pub fn extract_primary_key(&self, table_row: &TableRow, table_schema: &TableSchema) -> (key:
        Result<String, String>)
        ensures
            key is Ok <==> primary_key(*table_row, *table_schema) is Ok,
            key matches Ok(k) ==> primary_key(*table_row, *table_schema) == Ok::<
                Seq<char>,
                Seq<char>,
            >(k@),
            key matches Err(e) ==> primary_key(*table_row, *table_schema) == Err::<
                Seq<char>,
                Seq<char>,
            >(e@),
    {
        let ghost columns = table_schema.column_schemas@;
        let ghost indices = schema::primary_key_indices(columns);
        proof {
            schema::primary_key_indices_are_columns(columns);
        }
        let pk_indices = schema::primary_key_positions(table_schema.column_schemas.as_slice());
        assert(indices.len() == pk_indices@.len());
        assert forall|k: int| 0 <= k < indices.len() implies #[trigger] indices[k]
            == pk_indices@[k] by {
            assert(pk_indices@.map_values(|i: usize| i as int)[k] == pk_indices@[k]);
        }
        if pk_indices.len() == 0 {
            return Err("No primary key columns found in table schema".to_string());
        }
        let mut k: usize = 0;
        while k < pk_indices.len()
            invariant
                k <= pk_indices@.len(),
                indices == schema::primary_key_indices(table_schema.column_schemas@),
                indices.len() == pk_indices@.len(),
                indices.len() > 0,
                forall|j: int|
                    0 <= j < indices.len() ==> #[trigger] indices[j] == pk_indices@[j],
                forall|j: int| 0 <= j < k ==> #[trigger] indices[j] < table_row.values@.len(),
            decreases pk_indices@.len() - k,
        {
            let idx: usize = pk_indices[k];
            if idx >= table_row.values.len() {
                proof {
                    assert(indices[k as int] >= table_row.values@.len());
                    first_beyond_is_first(indices, table_row.values@.len() as int, k as int);
                }
                let mut message = "Primary key column index ".to_string();
                text::push_decimal(&mut message, idx as u64);
                message.append(" out of bounds for row with ");
                text::push_decimal(&mut message, table_row.values.len() as u64);
                message.append(" columns");
                return Err(message);
            }
            k += 1;
        }
        if pk_indices.len() == 1 {
            assert(indices[0] == pk_indices@[0]);
            Ok(Self::cell_to_string(&table_row.values[pk_indices[0]]))
        } else {
            let ghost values = indices.map_values(|i: int| key_text(table_row.values@[i]));
            let mut key_parts: Vec<String> = Vec::new();
            let mut k: usize = 0;
            while k < pk_indices.len()
                invariant
                    k <= pk_indices@.len(),
                    indices.len() == pk_indices@.len(),
                    forall|j: int|
                        0 <= j < indices.len() ==> #[trigger] indices[j] == pk_indices@[j],
                    forall|j: int|
                        0 <= j < indices.len() ==> #[trigger] indices[j] < table_row.values@.len(),
                    values == indices.map_values(|i: int| key_text(table_row.values@[i])),
                    text::texts(key_parts@) == values.take(k as int),
                decreases pk_indices@.len() - k,
            {
                assert(indices[k as int] == pk_indices@[k as int]);
                key_parts.push(Self::cell_to_string(&table_row.values[pk_indices[k]]));
                assert(text::texts(key_parts@) =~= values.take(k as int + 1));
                k += 1;
            }
            assert(values.take(k as int) =~= values);
            Ok(Self::join_composite_key(key_parts.as_slice()))
        }
    }

    /// The text of a value within a primary key.
    pub fn cell_to_string(cell: &Cell) -> (text: String)
        ensures
            text@ == key_text(*cell),
    {
        match cell {
            Cell::Null => "NULL".to_string(),
            Cell::Bool(b) => text::bool_text(*b),
            Cell::String(s) => s.clone(),
            Cell::I16(i) => text::signed_text(*i as i64),
            Cell::I32(i) => text::signed_text(*i as i64),
            Cell::I64(i) => text::signed_text(*i),
            Cell::U32(i) => text::unsigned_text(*i as u64),
            Cell::F32(bits) => cell::float32_to_text(*bits),
            Cell::F64(bits) => cell::float64_to_text(*bits),
            Cell::Numeric(n) => n.text.clone(),
            Cell::Date(d) => d.to_text(),
            Cell::Time(t) => t.to_text(),
            Cell::Timestamp(ts) => ts.to_text(),
            Cell::TimestampTz(ts) => ts.to_utc_text(),
            Cell::Uuid(u) => u.hyphenated(),
            Cell::Json(j) => j.text.clone(),
            Cell::Bytes(b) => {
                let mut text = "\\x".to_string();
                text::push_hex(&mut text, b.as_slice());
                text
            },
            Cell::Array(_) => "[ARRAY]".to_string(),
        }
    }

    fn escaped_part(part: &str) -> (escaped: String)
        ensures
            escaped@ == keys::escaped(part@),
    {
        proof {
            reveal_strlit("::::");
        }
        let chars = text::chars_of(part);
        let mut escaped = String::new();
        let mut i: usize = 0;
        assert(part@.skip(0) =~= part@);
        assert(escaped@ + keys::escaped(part@) =~= keys::escaped(part@));
        while i < chars.len()
            invariant
                i <= chars@.len(),
                chars@ == part@,
                escaped@ + keys::escaped(part@.skip(i as int)) == keys::escaped(part@),
                COMPOSITE_KEY_ESCAPE_REPLACEMENT@ =~= seq![':', ':', ':', ':'],
            decreases chars@.len() - i,
        {
            let ghost rest = part@.skip(i as int);
            if chars[i] == ':' && i + 1 < chars.len() && chars[i + 1] == ':' {
                assert(keys::colon_at(rest, 0) && keys::colon_at(rest, 1));
                assert(rest.skip(2) =~= part@.skip(i as int + 2));
                escaped.append(COMPOSITE_KEY_ESCAPE_REPLACEMENT);
                i += 2;
            } else {
                assert(!(keys::colon_at(rest, 0) && keys::colon_at(rest, 1)));
                assert(rest.skip(1) =~= part@.skip(i as int + 1));
                escaped.push(chars[i]);
                i += 1;
            }
            assert(escaped@ + keys::escaped(part@.skip(i as int)) =~= keys::escaped(part@));
        }
        assert(part@.skip(i as int) =~= Seq::empty());
        assert(escaped@ + Seq::<char>::empty() =~= escaped@);
        escaped
    }

    /// The composite key with these parts.
    pub fn join_composite_key(parts: &[String]) -> (key: String)
        ensures
            key@ == keys::join_key(text::texts(parts@)),
    {
        let ghost whole = text::texts(parts@).map_values(|part: Seq<char>| keys::escaped(part));
        let mut escaped_parts: Vec<String> = Vec::new();
        let mut i: usize = 0;
        while i < parts.len()
            invariant
                i <= parts@.len(),
                whole == text::texts(parts@).map_values(|part: Seq<char>| keys::escaped(part)),
                text::texts(escaped_parts@) == whole.take(i as int),
            decreases parts@.len() - i,
        {
            escaped_parts.push(Self::escaped_part(parts[i].as_str()));
            assert(text::texts(escaped_parts@) =~= whole.take(i as int + 1));
            i += 1;
        }
        proof {
            reveal_strlit("::");
            assert(whole.take(i as int) =~= whole);
            assert(COMPOSITE_KEY_DELIMITER@ =~= seq![':', ':']);
        }
        text::joined_text(escaped_parts.as_slice(), COMPOSITE_KEY_DELIMITER)
    }

    /// The parts of a composite key.
    pub fn split_composite_key(composite_key: &str) -> (parts: Vec<String>)
        ensures
            text::texts(parts@) == keys::split_key(composite_key@),
    {
        proof {
            reveal_strlit("::");
        }
        let chars = text::chars_of(composite_key);
        let mut parts: Vec<String> = Vec::new();
        if chars.len() == 0 {
            assert(text::texts(parts@) =~= Seq::empty());
            return parts;
        }
        let mut current_part = String::new();
        let mut i: usize = 0;
        assert(composite_key@.skip(0) =~= composite_key@);
        assert(current_part@ =~= Seq::<char>::empty());
        assert(text::texts(parts@) + keys::split_from(composite_key@, Seq::empty())
            =~= keys::split_from(composite_key@, Seq::empty()));
        while i < chars.len()
            invariant
                i <= chars@.len(),
                chars@ == composite_key@,
                text::texts(parts@) + keys::split_from(
                    composite_key@.skip(i as int),
                    current_part@,
                ) == keys::split_from(composite_key@, Seq::empty()),
                COMPOSITE_KEY_DELIMITER@ =~= seq![':', ':'],
            decreases chars@.len() - i,
        {
            let ghost rest = composite_key@.skip(i as int);
            let ghost before = text::texts(parts@);
            let ghost part = current_part@;
            if chars[i] == ':' && i + 1 < chars.len() && chars[i + 1] == ':' {
                assert(keys::colon_at(rest, 0) && keys::colon_at(rest, 1));
                if i + 2 < chars.len() && chars[i + 2] == ':' {
                    assert(keys::colon_at(rest, 2));
                    current_part.append(COMPOSITE_KEY_DELIMITER);
                    let read: usize = if chars.len() - i < 4 {
                        3
                    } else {
                        4
                    };
                    assert(rest.skip(read as int) =~= composite_key@.skip(i as int + read as int));
                    i += read;
                } else {
                    assert(!keys::colon_at(rest, 2));
                    assert(rest.skip(2) =~= composite_key@.skip(i as int + 2));
                    parts.push(current_part);
                    current_part = String::new();
                    assert(current_part@ =~= Seq::<char>::empty());
                    assert(text::texts(parts@) =~= before.push(part));
                    let ghost others = keys::split_from(rest.skip(2), Seq::empty());
                    assert(before.push(part) + others =~= before + (seq![part] + others));
                    i += 2;
                }
            } else {
                assert(!(keys::colon_at(rest, 0) && keys::colon_at(rest, 1)));
                assert(rest.skip(1) =~= composite_key@.skip(i as int + 1));
                current_part.push(chars[i]);
                i += 1;
            }
        }
        assert(composite_key@.skip(i as int) =~= Seq::empty());
        let ghost before = text::texts(parts@);
        let ghost part = current_part@;
        parts.push(current_part);
        assert(text::texts(parts@) =~= before + seq![part]);
        parts
    }

    /// A column name for use in a predicate.
    pub fn escape_identifier(name: &str) -> (escaped: String)
        ensures
            escaped@ == identifier(name@),
    {
        let mut escaped = String::new();
        escaped.push('`');
        escaped.append(text::doubled_text(name, '`').as_str());
        escaped.push('`');
        assert(escaped@ =~= identifier(name@));
        escaped
    }

    /// A text for use in a predicate.
    pub fn escape_string_literal(value: &str) -> (escaped: String)
        ensures
            escaped@ == string_literal(value@),
    {
        let mut escaped = String::new();
        escaped.push('\'');
        escaped.append(text::doubled_text(value, '\'').as_str());
        escaped.push('\'');
        assert(escaped@ =~= string_literal(value@));
        escaped
    }

    /// The names of the key columns of a table, in order.
    pub fn get_primary_key_columns(table_schema: &TableSchema) -> (names: Vec<String>)
        ensures
            text::texts(names@) == schema::primary_key_names(table_schema.column_schemas@),
    {
        let ghost columns = table_schema.column_schemas@;
        let ghost whole = schema::primary_key_names(columns);
        proof {
            schema::primary_key_indices_are_columns(columns);
        }
        let positions = schema::primary_key_positions(table_schema.column_schemas.as_slice());
        let ghost indices = positions@.map_values(|i: usize| i as int);
        let mut names: Vec<String> = Vec::new();
        let mut k: usize = 0;
        while k < positions.len()
            invariant
                k <= positions@.len(),
                columns == table_schema.column_schemas@,
                indices == positions@.map_values(|i: usize| i as int),
                indices == schema::primary_key_indices(columns),
                forall|k: int| 0 <= k < indices.len() ==> 0 <= #[trigger] indices[k] < columns.len(),
                whole == indices.map_values(|i: int| columns[i].name@),
                text::texts(names@) == whole.take(k as int),
            decreases positions@.len() - k,
        {
            assert(indices[k as int] == positions@[k as int]);
            names.push(table_schema.column_schemas[positions[k]].name.clone());
            assert(text::texts(names@) =~= whole.take(k as int + 1));
            k += 1;
        }
        assert(whole.take(k as int) =~= whole);
        names
    }
}

proof fn first_beyond_is_first(numbers: Seq<int>, limit: int, k: int)
    requires
        0 <= k < numbers.len(),
        numbers[k] >= limit,
        forall|j: int| 0 <= j < k ==> #[trigger] numbers[j] < limit,
    ensures
        first_beyond(numbers, limit) == k,
    decreases k,
{
    if k > 0 {
        assert(numbers[0] < limit);
        let rest = numbers.skip(1);
        assert forall|j: int| 0 <= j < k - 1 implies #[trigger] rest[j] < limit by {
            assert(rest[j] == numbers[j + 1]);
        }
        first_beyond_is_first(rest, limit, k - 1);
    }
}

/// Different column names stay different when they are escaped.
pub proof fn identifiers_differ(a: Seq<char>, b: Seq<char>)
    requires
        a != b,
    ensures
        identifier(a) != identifier(b),
{
    if identifier(a) == identifier(b) {
        let inner = |s: Seq<char>| s.subrange(1, s.len() - 1);
        assert(inner(identifier(a)) =~= text::doubled(a, '`'));
        assert(inner(identifier(b)) =~= text::doubled(b, '`'));
        text::doubled_is_injective(a, b, '`');
    }
}

/// Different texts stay different when they are escaped.
pub proof fn string_literals_differ(a: Seq<char>, b: Seq<char>)
    requires
        a != b,
    ensures
        string_literal(a) != string_literal(b),
{
    if string_literal(a) == string_literal(b) {
        let inner = |s: Seq<char>| s.subrange(1, s.len() - 1);
        assert(inner(string_literal(a)) =~= text::doubled(a, '\''));
        assert(inner(string_literal(b)) =~= text::doubled(b, '\''));
        text::doubled_is_injective(a, b, '\'');
    }
}

/// Two writes of one pipeline to one table have different identifiers.
pub proof fn transaction_ids_differ(pipeline_id: Seq<char>, table_name: Seq<char>, a: nat, b: nat)
    requires
        a != b,
    ensures
        transaction_id(pipeline_id, table_name, a) != transaction_id(pipeline_id, table_name, b),
{
    let prefix = "etl-"@ + pipeline_id + "-"@ + table_name + "-"@;
    let id_a = transaction_id(pipeline_id, table_name, a);
    let id_b = transaction_id(pipeline_id, table_name, b);
    if id_a == id_b {
        assert(id_a.skip(prefix.len() as int) =~= text::decimal(a));
        assert(id_b.skip(prefix.len() as int) =~= text::decimal(b));
        text::decimal_is_injective(a, b);
    }
}

} // verus!
