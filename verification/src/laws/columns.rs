//! Columns that take the type of their first value keep their values.

use arrow::array::ArrayData;
use vstd::prelude::*;

use crate::batch::array;
use crate::batch::array::{EncodedBatch, Item, array_items, array_type};
use crate::batch::cells;
use crate::batch::data_type::{Schema, TimeUnit, TypeView};
use crate::batch::encoding::BatchError;
use crate::delta::encoding;
use crate::delta::encoding::TableRowEncoder;
use crate::kernel::{KernelType, PrimitiveType, StructType};
use crate::laws::texts::tells;
use crate::types::debug;
use crate::types::{Cell, Row, TableRow, TableSchema};

verus! {

/// Whether the first value of a column stands at a place.
pub open spec fn starts_at(references: Seq<&Cell>, k: int) -> bool {
    &&& 0 <= k < references.len()
    &&& *references[k] !is Null
    &&& forall|j: int| 0 <= j < k ==> *(#[trigger] references[j]) is Null
}

proof fn first_is_found(cells: Seq<Cell>, k: int)
    requires
        0 <= k < cells.len(),
        cells[k] !is Null,
        forall|j: int| 0 <= j < k ==> (#[trigger] cells[j]) is Null,
    ensures
        encoding::first_present(cells) == Some(cells[k]),
    decreases k,
{
    if k > 0 {
        let rest = cells.skip(1);
        assert(cells[0] is Null);
        assert forall|j: int| 0 <= j < k - 1 implies (#[trigger] rest[j]) is Null by {
            assert(rest[j] == cells[j + 1]);
        }
        first_is_found(rest, k - 1);
    }
}

proof fn nothing_is_found(cells: Seq<Cell>)
    requires
        forall|j: int| 0 <= j < cells.len() ==> (#[trigger] cells[j]) is Null,
    ensures
        encoding::first_present(cells) is None,
    decreases cells.len(),
{
    if cells.len() > 0 {
        assert(cells[0] is Null);
        assert forall|j: int| 0 <= j < cells.skip(1).len() implies (
        #[trigger] cells.skip(1)[j]) is Null by {
            assert(cells.skip(1)[j] == cells[j + 1]);
        }
        nothing_is_found(cells.skip(1));
    }
}

/// In a column that starts with an integer of at most 32 bits every such integer is encoded as the
/// number that it is, whatever its sign. An unsigned number after a 32-bit integer is encoded as
/// the number of 32 bits that it is congruent to; every other cell is missing.
pub proof fn integers_are_encoded_as_they_are(
    references: &Vec<&Cell>,
    array: ArrayData,
    k: int,
    i: int,
)
    requires
        call_ensures(TableRowEncoder::convert_cell_column_to_array, (references,), array),
        starts_at(references@, k),
        *references@[k] is I16 || *references@[k] is I32,
        0 <= i < references@.len(),
    ensures
        array_type(array) == TypeView::Int32,
        array_items(array).len() == references@.len(),
        match *references@[i] {
            Cell::I16(n) => array_items(array)[i] == Item::Int(n as int),
            Cell::I32(n) => array_items(array)[i] == Item::Int(n as int),
            Cell::U32(n) => if *references@[k] is I32 {
                &&& array_items(array)[i] matches Item::Int(m)
                &&& i32::MIN <= m <= i32::MAX
                &&& (m - n) % 0x1_0000_0000 == 0
            } else {
                array_items(array)[i] == Item::Null
            },
            _ => array_items(array)[i] == Item::Null,
        },
{
    let cells = encoding::referenced(references@);
    assert forall|j: int| 0 <= j < k implies (#[trigger] cells[j]) is Null by {
        assert(*references@[j] is Null);
    }
    first_is_found(cells, k);
    assert(cells[i] == *references@[i]);
}

/// Two integers of at most 32 bits in such a column have one item only if they are one number.
pub proof fn different_integers_stay_different(
    references: &Vec<&Cell>,
    array: ArrayData,
    k: int,
    i: int,
    j: int,
)
    requires
        call_ensures(TableRowEncoder::convert_cell_column_to_array, (references,), array),
        starts_at(references@, k),
        *references@[k] is I16 || *references@[k] is I32,
        0 <= i < references@.len(),
        0 <= j < references@.len(),
        array_items(array)[i] == array_items(array)[j],
    ensures
        match (*references@[i], *references@[j]) {
            (Cell::I16(a), Cell::I16(b)) => a == b,
            (Cell::I32(a), Cell::I32(b)) => a == b,
            (Cell::I16(a), Cell::I32(b)) => a == b,
            (Cell::I32(a), Cell::I16(b)) => a == b,
            _ => true,
        },
{
    integers_are_encoded_as_they_are(references, array, k, i);
    integers_are_encoded_as_they_are(references, array, k, j);
}

/// In a column that starts with a truth value every truth value is encoded as it is, and every
/// other cell is missing.
pub proof fn truth_values_are_encoded_as_they_are(
    references: &Vec<&Cell>,
    array: ArrayData,
    k: int,
    i: int,
)
    requires
        call_ensures(TableRowEncoder::convert_cell_column_to_array, (references,), array),
        starts_at(references@, k),
        *references@[k] is Bool,
        0 <= i < references@.len(),
    ensures
        array_type(array) == TypeView::Boolean,
        array_items(array).len() == references@.len(),
        match *references@[i] {
            Cell::Bool(b) => array_items(array)[i] == Item::Bool(b),
            _ => array_items(array)[i] == Item::Null,
        },
{
    let cells = encoding::referenced(references@);
    assert forall|j: int| 0 <= j < k implies (#[trigger] cells[j]) is Null by {
        assert(*references@[j] is Null);
    }
    first_is_found(cells, k);
    assert(cells[i] == *references@[i]);
}

/// In a column that starts with any other value every cell is encoded as the text that tells its
/// value. Lists and raw bytes have their debug texts. Only the cells without a value are missing.
pub proof fn other_values_are_encoded_as_texts(
    references: &Vec<&Cell>,
    array: ArrayData,
    k: int,
    i: int,
)
    requires
        call_ensures(TableRowEncoder::convert_cell_column_to_array, (references,), array),
        starts_at(references@, k),
        !(*references@[k] is I16 || *references@[k] is I32 || *references@[k] is Bool),
        0 <= i < references@.len(),
    ensures
        array_type(array) == TypeView::Utf8,
        array_items(array).len() == references@.len(),
        match *references@[i] {
            Cell::Null => array_items(array)[i] == Item::Null,
            Cell::Bytes(bytes) => array_items(array)[i] == Item::Text(debug::bytes_text(bytes@)),
            Cell::Array(list) => array_items(array)[i] == Item::Text(debug::array_text(list)),
            _ => array_items(array)[i] matches Item::Text(whole) && tells(whole, *references@[i]),
        },
{
    let cells = encoding::referenced(references@);
    assert forall|j: int| 0 <= j < k implies (#[trigger] cells[j]) is Null by {
        assert(*references@[j] is Null);
    }
    first_is_found(cells, k);
    assert(cells[i] == *references@[i]);
}

/// A column without a value is a column of texts that are all missing.
pub proof fn empty_columns_have_no_values(references: &Vec<&Cell>, array: ArrayData, i: int)
    requires
        call_ensures(TableRowEncoder::convert_cell_column_to_array, (references,), array),
        forall|j: int| 0 <= j < references@.len() ==> *(#[trigger] references@[j]) is Null,
        0 <= i < references@.len(),
    ensures
        array_type(array) == TypeView::Utf8,
        array_items(array).len() == references@.len(),
        array_items(array)[i] == Item::Null,
{
    let cells = encoding::referenced(references@);
    assert forall|j: int| 0 <= j < cells.len() implies (#[trigger] cells[j]) is Null by {
        assert(*references@[j] is Null);
    }
    nothing_is_found(cells);
    assert(cells[i] == *references@[i]);
}

/// Columns of one kind keep the cells of their kind, and no others.
pub proof fn columns_of_one_kind_keep_it(
    references: &Vec<&Cell>,
    bools: ArrayData,
    numbers: ArrayData,
    i: int,
)
    requires
        call_ensures(TableRowEncoder::convert_bool_column, (references,), bools),
        call_ensures(TableRowEncoder::convert_int32_column, (references,), numbers),
        0 <= i < references@.len(),
    ensures
        array_type(bools) == TypeView::Boolean,
        array_type(numbers) == TypeView::Int32,
        array_items(bools).len() == references@.len(),
        array_items(numbers).len() == references@.len(),
        array_items(bools)[i] == match *references@[i] {
            Cell::Bool(b) => Item::Bool(b),
            _ => Item::Null,
        },
        array_items(numbers)[i] == match *references@[i] {
            Cell::I32(n) => Item::Int(n as int),
            _ => Item::Null,
        },
{
}

/// A column of strings keeps the strings, and a column of lists their debug texts.
pub proof fn columns_of_texts_keep_them(
    references: &Vec<&Cell>,
    strings: ArrayData,
    lists: ArrayData,
    i: int,
)
    requires
        call_ensures(TableRowEncoder::convert_string_column, (references,), strings),
        call_ensures(TableRowEncoder::convert_array_column, (references,), Some(lists)),
        0 <= i < references@.len(),
    ensures
        array_type(strings) == TypeView::Utf8,
        array_type(lists) == TypeView::Utf8,
        array_items(strings).len() == references@.len(),
        array_items(lists).len() == references@.len(),
        array_items(strings)[i] == match *references@[i] {
            Cell::String(s) => Item::Text(s@),
            _ => Item::Null,
        },
        array_items(lists)[i] == match *references@[i] {
            Cell::Array(list) => Item::Text(debug::array_text(list)),
            _ => Item::Null,
        },
{
}

/// A batch of rows has the columns of the table, in order, with their names and their nullability.
/// What it holds of a column is what the cells of the rows in that column are encoded as.
pub proof fn batches_have_the_columns_of_the_table<R: Row>(
    table_schema: &TableSchema,
    table_rows: Vec<R>,
    batches: Vec<EncodedBatch>,
    c: int,
    references: &Vec<&Cell>,
    array: ArrayData,
)
    requires
        call_ensures(
            TableRowEncoder::encode_table_rows::<R>,
            (table_schema, table_rows),
            Ok::<_, BatchError>(batches),
        ),
        table_rows@.len() > 0,
        0 <= c < table_schema.column_schemas@.len(),
        references@.len() == table_rows@.len(),
        forall|r: int|
            0 <= r < table_rows@.len() ==> *(#[trigger] references@[r])
                == table_rows@[r].row().values@[c],
        call_ensures(TableRowEncoder::convert_cell_column_to_array, (references,), array),
    ensures
        batches@.len() == 1,
        batches@[0].fields().len() == table_schema.column_schemas@.len(),
        batches@[0].columns().len() == table_schema.column_schemas@.len(),
        batches@[0].fields()[c].name == table_schema.column_schemas@[c].name@,
        batches@[0].fields()[c].nullable == table_schema.column_schemas@[c].nullable,
        batches@[0].fields()[c].data_type == array_type(array),
        batches@[0].fields()[c].metadata == Map::<Seq<char>, Seq<char>>::empty(),
        batches@[0].columns()[c] == array_items(array),
{
    assert(encoding::referenced(references@) =~= cells::cells(table_rows@, c));
}

/// The arrays of rows are those of their columns, in order.
pub proof fn arrays_are_those_of_the_columns<R: Row>(
    table_schema: &TableSchema,
    table_rows: &Vec<R>,
    arrays: Vec<ArrayData>,
    c: int,
    references: &Vec<&Cell>,
    array: ArrayData,
)
    requires
        call_ensures(
            TableRowEncoder::convert_columns_to_arrays::<R>,
            (table_schema, table_rows),
            arrays,
        ),
        0 <= c < table_schema.column_schemas@.len(),
        references@.len() == table_rows@.len(),
        forall|r: int|
            0 <= r < table_rows@.len() ==> *(#[trigger] references@[r])
                == table_rows@[r].row().values@[c],
        call_ensures(TableRowEncoder::convert_cell_column_to_array, (references,), array),
    ensures
        arrays@.len() == table_schema.column_schemas@.len(),
        array_items(arrays@[c]) == array_items(array),
        array_type(arrays@[c]) == array_type(array),
{
    assert(encoding::referenced(references@) =~= cells::cells(table_rows@, c));
    let types = array::array_types(arrays@);
    let columns = array::array_columns(arrays@);
    assert(types.len() == table_schema.column_schemas@.len());
    assert(types[c] == array_type(arrays@[c]));
    assert(columns[c] == array_items(arrays@[c]));
}

/// Rows make a batch unless a value is missing in a column that does not allow it: no batch is made
/// of rows without a column, and none of no rows.
pub proof fn missing_values_are_refused<R: Row>(
    table_schema: &TableSchema,
    table_rows: Vec<R>,
    batches: Result<Vec<EncodedBatch>, BatchError>,
)
    requires
        call_ensures(TableRowEncoder::encode_table_rows::<R>, (table_schema, table_rows), batches),
    ensures
        table_rows@.len() == 0 ==> (batches matches Ok(b) && b@.len() == 0),
        table_rows@.len() > 0 && table_schema.column_schemas@.len() == 0 ==> batches is Err,
        batches matches Ok(b) ==> forall|c: int, r: int|
            0 <= c < table_schema.column_schemas@.len() && 0 <= r < table_rows@.len()
                && !table_schema.column_schemas@[c].nullable ==> #[trigger] b@[0].columns()[c][r]
                != Item::Null,
        table_rows@.len() > 0 && table_schema.column_schemas@.len() > 0 && (forall|c: int|
            0 <= c < table_schema.column_schemas@.len() ==> (
            #[trigger] table_schema.column_schemas@[c]).nullable) ==> batches is Ok,
{
    if let Ok(b) = batches {
        assert forall|c: int, r: int|
            0 <= c < table_schema.column_schemas@.len() && 0 <= r < table_rows@.len()
                && !table_schema.column_schemas@[c].nullable implies #[trigger] b@[0].columns()[c][r]
            != Item::Null by {
            let items = encoding::column_items(cells::cells(table_rows@, c));
            assert(b@[0].columns()[c] == items);
            assert(items.contains(items[r]));
        }
    }
}

/// Rows are split into chunks in order: none is lost, no chunk is empty, all but the last have as
/// many rows as a hundred bytes each leave room for, and the last has no more.
pub proof fn chunks_are_filled_in_order(
    table_rows: Vec<TableRow>,
    target_size_mb: usize,
    chunks: Vec<Vec<TableRow>>,
    i: int,
)
    requires
        call_ensures(TableRowEncoder::chunk_table_rows, (table_rows, target_size_mb), chunks),
        0 <= i < chunks@.len(),
    ensures
        chunks@[i]@.len() >= 1,
        chunks@[i]@.len() == 1 || 100 * chunks@[i]@.len() <= 1048576 * target_size_mb,
        i + 1 < chunks@.len() ==> 100 * (chunks@[i]@.len() + 1) > 1048576 * target_size_mb,
        forall|j: int, r: int|
            #![trigger chunks@[j]@[r]]
            0 <= j < chunks@.len() && 0 <= r < chunks@[j]@.len() ==> chunks@[j]@[r]
                == table_rows@[j * chunks@[0]@.len() + r],
        chunks@.last()@.len() + (chunks@.len() - 1) * chunks@[0]@.len() == table_rows@.len(),
{
    let size = encoding::rows_per_chunk(target_size_mb as nat);
    let parts = encoding::chunked(table_rows@, size);
    assert(chunks@.map_values(|chunk: Vec<TableRow>| chunk@) == parts);
    assert forall|j: int| 0 <= j < chunks@.len() implies #[trigger] chunks@[j]@ == parts[j] by {
        assert(chunks@.map_values(|chunk: Vec<TableRow>| chunk@)[j] == chunks@[j]@);
    }
    encoding::chunks_have_their_size(table_rows@, size, i);
    encoding::chunks_have_their_size(table_rows@, size, 0);
    parts_are_in_order(table_rows@, size);
    let first = chunks@[0]@.len();
    assert(first == size || parts.len() == 1);
    if parts.len() == 1 {
        assert((parts.len() - 1) * first == 0) by (nonlinear_arith)
            requires
                parts.len() == 1,
        ;
        assert((parts.len() - 1) * size == 0) by (nonlinear_arith)
            requires
                parts.len() == 1,
        ;
    }
    assert forall|j: int, r: int|
        #![trigger chunks@[j]@[r]]
        0 <= j < chunks@.len() && 0 <= r < chunks@[j]@.len() implies chunks@[j]@[r]
        == table_rows@[j * chunks@[0]@.len() + r] by {
        assert(chunks@[j]@ == parts[j]);
        assert(parts[j][r] == table_rows@[j * size + r]);
        if parts.len() == 1 {
            assert(j == 0);
            assert(0 * size == 0) by (nonlinear_arith);
            assert(0 * first == 0) by (nonlinear_arith);
        }
    }
}

proof fn parts_are_in_order(rows: Seq<TableRow>, size: nat)
    requires
        size > 0,
        rows.len() > 0,
    ensures
        ({
            let parts = encoding::chunked(rows, size);
            &&& parts.len() > 0
            &&& parts.last().len() + (parts.len() - 1) * size == rows.len()
            &&& forall|j: int, r: int|
                #![trigger parts[j][r]]
                0 <= j < parts.len() && 0 <= r < parts[j].len() ==> parts[j][r] == rows[j * size + r]
        }),
    decreases rows.len(),
{
    let parts = encoding::chunked(rows, size);
    if rows.len() <= size {
        assert(parts =~= seq![rows]);
        assert(0 * size == 0) by (nonlinear_arith);
    } else {
        let rest = rows.skip(size as int);
        let others = encoding::chunked(rest, size);
        parts_are_in_order(rest, size);
        assert(parts.len() == others.len() + 1);
        assert(parts.last() == others.last());
        assert((others.len() - 1) * size + size == others.len() * size) by (nonlinear_arith);
        assert forall|j: int, r: int|
            #![trigger parts[j][r]]
            0 <= j < parts.len() && 0 <= r < parts[j].len() implies parts[j][r] == rows[j * size
            + r] by {
            if j == 0 {
                assert(0 * size == 0) by (nonlinear_arith);
                assert(parts[0] =~= rows.take(size as int));
            } else {
                assert(parts[j] == others[j - 1]);
                assert(others[j - 1][r] == rest[(j - 1) * size + r]);
                assert((j - 1) * size + size == j * size) by (nonlinear_arith);
                assert((j - 1) * size >= 0) by (nonlinear_arith)
                    requires
                        j >= 1,
                ;
                assert(others[j - 1].len() + (j - 1) * size <= rest.len()) by {
                    parts_end_in_order(rest, size, j - 1);
                }
            }
        }
    }
}

proof fn parts_end_in_order(rows: Seq<TableRow>, size: nat, j: int)
    requires
        size > 0,
        0 <= j < encoding::chunked(rows, size).len(),
    ensures
        encoding::chunked(rows, size)[j].len() + j * size <= rows.len(),
    decreases rows.len(),
{
    if rows.len() <= size {
        assert(encoding::chunked(rows, size) =~= seq![rows]);
        assert(0 * size == 0) by (nonlinear_arith);
    } else if j == 0 {
        assert(0 * size == 0) by (nonlinear_arith);
    } else {
        let rest = rows.skip(size as int);
        parts_end_in_order(rest, size, j - 1);
        assert(encoding::chunked(rows, size)[j] == encoding::chunked(rest, size)[j - 1]);
        assert((j - 1) * size + size == j * size) by (nonlinear_arith);
    }
}

/// A batch is taken to have eight bytes for each of its values.
pub proof fn values_have_eight_bytes(batch: &EncodedBatch, size: usize)
    requires
        call_ensures(TableRowEncoder::estimate_record_batch_size, (batch,), size),
    ensures
        size == 8 * (batch.columns().len() * batch.columns()[0].len()),
{
    let columns = batch.columns().len() as int;
    let rows = batch.columns()[0].len() as int;
    assert(rows * columns * 8 == 8 * (columns * rows)) by (nonlinear_arith);
}

/// The number of bits of the values of an Arrow type of numbers.
pub open spec fn arrow_bits(data_type: TypeView) -> Option<int> {
    match data_type {
        TypeView::Int16 => Some(16),
        TypeView::Int32 | TypeView::Float32 => Some(32),
        TypeView::Int64 | TypeView::Float64 => Some(64),
        _ => None,
    }
}

/// The number of bits of the values of a Delta type of numbers.
pub open spec fn delta_bits(primitive: PrimitiveType) -> Option<int> {
    match primitive {
        PrimitiveType::Short => Some(16),
        PrimitiveType::Integer | PrimitiveType::Float => Some(32),
        PrimitiveType::Long | PrimitiveType::Double => Some(64),
        _ => None,
    }
}

/// The Arrow schema of a Delta table has its columns, in order, with their names, their nullability
/// and types of the same values: numbers with as many bits, floats as floats, days as days,
/// instants with the time zone that they are in, and texts for everything that has no such type.
pub proof fn arrow_columns_hold_delta_values(delta_schema: &StructType, schema: Schema, i: int)
    requires
        call_ensures(TableRowEncoder::delta_schema_to_arrow, (delta_schema,), schema),
        0 <= i < delta_schema@.len(),
    ensures
        schema@.len() == delta_schema@.len(),
        schema@[i].name == delta_schema@[i].name,
        schema@[i].nullable == delta_schema@[i].nullable,
        schema@[i].metadata == Map::<Seq<char>, Seq<char>>::empty(),
        match delta_schema@[i].data_type {
            KernelType::Primitive(primitive) => {
                let data_type = schema@[i].data_type;
                &&& arrow_bits(data_type) == delta_bits(primitive)
                &&& (data_type is Float32 || data_type is Float64) <==> (primitive is Float
                    || primitive is Double)
                &&& data_type is Boolean <==> primitive is Boolean
                &&& data_type is Date32 <==> primitive is Date
                &&& data_type is Binary <==> primitive is Binary
                &&& data_type == TypeView::Timestamp(TimeUnit::Microsecond, Some("UTC"@))
                    <==> primitive is Timestamp
                &&& data_type == TypeView::Timestamp(TimeUnit::Microsecond, None) <==> primitive
                    is TimestampNtz
                &&& data_type is Utf8 <==> (primitive is String || primitive is Decimal)
            },
            _ => schema@[i].data_type is Utf8,
        },
{
}

} // verus!
