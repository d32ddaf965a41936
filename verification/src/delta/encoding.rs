//! Rows as Arrow batches whose columns take the type of their first value.

use arrow::array::ArrayData;
use vstd::prelude::*;

use crate::batch::array;
use crate::batch::array::{EncodedBatch, Item, array_items, array_type, items};
use crate::batch::cells::{cells, rows_reach};
use crate::batch::data_type;
use crate::batch::data_type::{DataType, Field, FieldView, Schema, TimeUnit, TypeView};
use crate::batch::encoding::BatchError;
use crate::batch::limits;
use crate::delta::client;
use crate::delta::client::DeltaLakeClient;
use crate::kernel;
use crate::kernel::{KernelType, PrimitiveType, StructType};
use crate::text;
use crate::types::debug;
use crate::types::{Cell, ColumnSchema, Row, TableRow, TableSchema};

verus! {

broadcast use text::take_one_more;

/// The number of bytes that a row is taken to have.
pub const ESTIMATED_ROW_SIZE: usize = 100;

/// The first cell that holds a value.
pub open spec fn first_present(cells: Seq<Cell>) -> Option<Cell>
    decreases cells.len(),
{
    if cells.len() == 0 {
        None
    } else if cells[0] is Null {
        first_present(cells.skip(1))
    } else {
        Some(cells[0])
    }
}

/// An unsigned number as a signed one with the same 32 bits.
pub open spec fn wrapped(value: u32) -> int {
    if value <= i32::MAX {
        value as int
    } else {
        value - 0x1_0000_0000
    }
}

/// The number of a cell in a column that starts with a 32-bit integer.
pub open spec fn number_after_i32(cell: Cell) -> Option<int> {
    match cell {
        Cell::I32(i) => Some(i as int),
        Cell::I16(i) => Some(i as int),
        Cell::U32(i) => Some(wrapped(i)),
        _ => None,
    }
}

/// The number of a cell in a column that starts with a 16-bit integer.
pub open spec fn number_after_i16(cell: Cell) -> Option<int> {
    match cell {
        Cell::I16(i) => Some(i as int),
        Cell::I32(i) => Some(i as int),
        _ => None,
    }
}

/// The text of a cell in a column of texts. Lists and raw bytes have their debug text.
pub open spec fn column_text(cell: Cell) -> Option<Seq<char>> {
    match cell {
        Cell::Null => None,
        Cell::Bytes(bytes) => Some(debug::bytes_text(bytes@)),
        Cell::Array(array_cell) => Some(debug::array_text(array_cell)),
        _ => Some(client::key_text(cell)),
    }
}

/// The item for a number that may be missing.
pub open spec fn number_item(number: Option<int>) -> Item {
    match number {
        Some(n) => Item::Int(n),
        None => Item::Null,
    }
}

/// The item for a cell in a column whose first value is `first`. A cell that does not fit is
/// missing.
pub open spec fn cell_item(first: Option<Cell>, cell: Cell) -> Item {
    match first {
        Some(Cell::Bool(_)) => match cell {
            Cell::Bool(b) => Item::Bool(b),
            _ => Item::Null,
        },
        Some(Cell::I32(_)) => number_item(number_after_i32(cell)),
        Some(Cell::I16(_)) => number_item(number_after_i16(cell)),
        _ => match column_text(cell) {
            Some(text) => Item::Text(text),
            None => Item::Null,
        },
    }
}

/// The items of a column.
pub open spec fn column_items(cells: Seq<Cell>) -> Seq<Item> {
    Seq::new(cells.len(), |i: int| cell_item(first_present(cells), cells[i]))
}

/// The type of a column: that of its first value. Everything but truth values and integers of at
/// most 32 bits is encoded as text.
pub open spec fn column_type(cells: Seq<Cell>) -> TypeView {
    match first_present(cells) {
        Some(Cell::Bool(_)) => TypeView::Boolean,
        Some(Cell::I32(_)) => TypeView::Int32,
        Some(Cell::I16(_)) => TypeView::Int32,
        _ => TypeView::Utf8,
    }
}

/// The items of a column of texts.
pub open spec fn string_items(cells: Seq<Cell>) -> Seq<Item> {
    Seq::new(
        cells.len(),
        |i: int|
            match cells[i] {
                Cell::String(s) => Item::Text(s@),
                _ => Item::Null,
            },
    )
}

/// The items of a column of lists: their debug texts.
pub open spec fn list_items(cells: Seq<Cell>) -> Seq<Item> {
    Seq::new(
        cells.len(),
        |i: int|
            match cells[i] {
                Cell::Array(array_cell) => Item::Text(debug::array_text(array_cell)),
                _ => Item::Null,
            },
    )
}

/// The cells behind some references.
pub open spec fn referenced(cells: Seq<&Cell>) -> Seq<Cell> {
    Seq::new(cells.len(), |i: int| *cells[i])
}

/// The field of a column: the name and the nullability of the column of the table, with the type
/// of the encoded values.
pub open spec fn column_field(column: ColumnSchema, cells: Seq<Cell>) -> FieldView {
    FieldView {
        name: column.name@,
        data_type: column_type(cells),
        nullable: column.nullable,
        metadata: Map::empty(),
    }
}

/// The fields of a batch of rows.
pub open spec fn batch_fields<R: Row>(columns: Seq<ColumnSchema>, rows: Seq<R>) -> Seq<FieldView> {
    Seq::new(columns.len(), |i: int| column_field(columns[i], cells(rows, i)))
}

/// The columns of a batch of rows.
pub open spec fn batch_columns<R: Row>(columns: Seq<ColumnSchema>, rows: Seq<R>) -> Seq<Seq<Item>> {
    Seq::new(columns.len(), |i: int| column_items(cells(rows, i)))
}

/// Whether every row has a cell for a column, and the texts of the column can be counted.
pub open spec fn column_fits<R: Row>(rows: Seq<R>, index: int) -> bool {
    &&& rows_reach(rows, index)
    &&& array::text_bytes(column_items(cells(rows, index))) <= i32::MAX
}

/// Whether every column of some rows fits.
pub open spec fn rows_fit<R: Row>(columns: Seq<ColumnSchema>, rows: Seq<R>) -> bool {
    forall|i: int| 0 <= i < columns.len() ==> #[trigger] column_fits(rows, i)
}

/// Whether rows make a batch: there is a column, and no value is missing in a column that does
/// not allow it.
pub open spec fn rows_make_batch<R: Row>(columns: Seq<ColumnSchema>, rows: Seq<R>) -> bool {
    &&& columns.len() > 0
    &&& forall|i: int|
        0 <= i < columns.len() ==> (#[trigger] columns[i]).nullable || !column_items(
            cells(rows, i),
        ).contains(Item::Null)
}

/// The type of an Arrow column for a Delta type. Types without a counterpart become text.
pub open spec fn arrow_type(kernel_type: KernelType) -> TypeView {
    match kernel_type {
        KernelType::Primitive(PrimitiveType::Boolean) => TypeView::Boolean,
        KernelType::Primitive(PrimitiveType::Integer) => TypeView::Int32,
        KernelType::Primitive(PrimitiveType::Long) => TypeView::Int64,
        KernelType::Primitive(PrimitiveType::Short) => TypeView::Int16,
        KernelType::Primitive(PrimitiveType::Float) => TypeView::Float32,
        KernelType::Primitive(PrimitiveType::Double) => TypeView::Float64,
        KernelType::Primitive(PrimitiveType::Date) => TypeView::Date32,
        KernelType::Primitive(PrimitiveType::Timestamp) => TypeView::Timestamp(
            TimeUnit::Microsecond,
            Some("UTC"@),
        ),
        KernelType::Primitive(PrimitiveType::TimestampNtz) => TypeView::Timestamp(
            TimeUnit::Microsecond,
            None,
        ),
        KernelType::Primitive(PrimitiveType::Binary) => TypeView::Binary,
        _ => TypeView::Utf8,
    }
}

/// The chunks of rows: each but the last has `size` rows.
pub open spec fn chunked(rows: Seq<TableRow>, size: nat) -> Seq<Seq<TableRow>>
    decreases rows.len(),
{
    if rows.len() == 0 || size == 0 {
        Seq::empty()
    } else if rows.len() <= size {
        seq![rows]
    } else {
        seq![rows.take(size as int)] + chunked(rows.skip(size as int), size)
    }
}

/// The number of rows in a chunk of so many megabytes, which is at least one.
pub open spec fn rows_per_chunk(target_size_mb: nat) -> nat {
    if target_size_mb * 1048576 / 100 < 1 {
        1
    } else {
        target_size_mb * 1048576 / 100
    }
}

/// The rows of all chunks.
pub open spec fn unchunked(chunks: Seq<Seq<TableRow>>) -> Seq<TableRow>
    decreases chunks.len(),
{
    if chunks.len() == 0 {
        Seq::empty()
    } else {
        chunks[0] + unchunked(chunks.skip(1))
    }
}

/// Encodes rows as Arrow batches.
pub struct TableRowEncoder;

impl TableRowEncoder {
    /// Rows as batches: none for no rows, and one for all rows otherwise.
    pub fn encode_table_rows<R: Row>(table_schema: &TableSchema, table_rows: Vec<R>) -> (batches:
        Result<Vec<EncodedBatch>, BatchError>)
        requires
            table_rows@.len() > 0 ==> rows_fit(table_schema.column_schemas@, table_rows@),
        ensures
            batches is Ok <==> table_rows@.len() == 0 || rows_make_batch(
                table_schema.column_schemas@,
                table_rows@,
            ),
            batches matches Ok(b) ==> if table_rows@.len() == 0 {
                b@.len() == 0
            } else {
                &&& b@.len() == 1
                &&& b@[0].fields() == batch_fields(table_schema.column_schemas@, table_rows@)
                &&& b@[0].columns() == batch_columns(table_schema.column_schemas@, table_rows@)
            },
    {
        let mut batches: Vec<EncodedBatch> = Vec::new();
        if table_rows.len() == 0 {
            return Ok(batches);
        }
        match Self::table_rows_to_record_batch(table_schema, &table_rows) {
            Ok(batch) => {
                batches.push(batch);
                Ok(batches)
            },
            Err(error) => Err(error),
        }
    }

    /// Rows as batches, for any rows: nothing if a row has no cell for a column, or if the texts
    /// of a column cannot be counted.
    pub fn try_encode_table_rows<R: Row>(table_schema: &TableSchema, table_rows: Vec<R>) -> (batches:
        Option<Result<Vec<EncodedBatch>, BatchError>>)
        ensures
            batches is Some <==> table_rows@.len() == 0 || rows_fit(
                table_schema.column_schemas@,
                table_rows@,
            ),
            batches matches Some(result) ==> {
                &&& result is Ok <==> table_rows@.len() == 0 || rows_make_batch(
                    table_schema.column_schemas@,
                    table_rows@,
                )
                &&& result matches Ok(b) ==> if table_rows@.len() == 0 {
                    b@.len() == 0
                } else {
                    &&& b@.len() == 1
                    &&& b@[0].fields() == batch_fields(table_schema.column_schemas@, table_rows@)
                    &&& b@[0].columns() == batch_columns(table_schema.column_schemas@, table_rows@)
                }
            },
    {
        if table_rows.len() > 0 && !Self::rows_can_be_stored(table_schema, &table_rows) {
            return None;
        }
        Some(Self::encode_table_rows(table_schema, table_rows))
    }

    /// Whether every column of some rows fits.
    pub fn rows_can_be_stored<R: Row>(table_schema: &TableSchema, table_rows: &Vec<R>) -> (fit: bool)
        ensures
            fit == rows_fit(table_schema.column_schemas@, table_rows@),
    {
        let columns = &table_schema.column_schemas;
        let mut i: usize = 0;
        while i < columns.len()
            invariant
                i <= columns@.len(),
                columns@ == table_schema.column_schemas@,
                forall|k: int| 0 <= k < i ==> #[trigger] column_fits(table_rows@, k),
            decreases columns@.len() - i,
        {
            let ghost column = cells(table_rows@, i as int);
            let mut r: usize = 0;
            while r < table_rows.len()
                invariant
                    r <= table_rows@.len(),
                    i < columns@.len(),
                    columns@ == table_schema.column_schemas@,
                    column == cells(table_rows@, i as int),
                    forall|k: int| 0 <= k < r ==> i < (#[trigger] table_rows@[k]).row().values@.len(),
                decreases table_rows@.len() - r,
            {
                if table_rows[r].as_row().values.len() <= i {
                    proof {
                        if rows_fit(columns@, table_rows@) {
                            assert(column_fits(table_rows@, i as int));
                        }
                    }
                    return false;
                }
                r += 1;
            }
            let references = Self::column_cells(table_rows, i);
            if !Self::column_can_be_stored(&references) {
                assert(!column_fits(table_rows@, i as int));
                return false;
            }
            assert(column_fits(table_rows@, i as int));
            i += 1;
        }
        true
    }

    fn column_can_be_stored(references: &Vec<&Cell>) -> (fit: bool)
        ensures
            fit == (array::text_bytes(column_items(referenced(references@))) <= i32::MAX),
    {
        let ghost column = referenced(references@);
        match Self::find_first_present(references) {
            Some(Cell::Bool(_)) | Some(Cell::I32(_)) | Some(Cell::I16(_)) => {
                proof {
                    limits::no_texts_have_no_bytes(column_items(column));
                }
                true
            },
            _ => {
                let values = Self::column_texts(references);
                assert(items(values@, array::text_item()) =~= column_items(column));
                limits::texts_fit(&values)
            },
        }
    }

    /// References to the cells of a column.
    fn column_cells<R: Row>(table_rows: &Vec<R>, index: usize) -> (references: Vec<&Cell>)
        requires
            rows_reach(table_rows@, index as int),
        ensures
            referenced(references@) == cells(table_rows@, index as int),
    {
        let mut references: Vec<&Cell> = Vec::new();
        let mut i: usize = 0;
        while i < table_rows.len()
            invariant
                i <= table_rows@.len(),
                rows_reach(table_rows@, index as int),
                references@.len() == i,
                forall|k: int|
                    0 <= k < i ==> *(#[trigger] references@[k])
                        == table_rows@[k].row().values@[index as int],
            decreases table_rows@.len() - i,
        {
            references.push(&table_rows[i].as_row().values[index]);
            i += 1;
        }
        assert(referenced(references@) =~= cells(table_rows@, index as int));
        references
    }

    /// Rows as one batch.
    fn table_rows_to_record_batch<R: Row>(table_schema: &TableSchema, table_rows: &Vec<R>) -> (batch:
        Result<EncodedBatch, BatchError>)
        requires
            rows_fit(table_schema.column_schemas@, table_rows@),
        ensures
            batch is Ok <==> rows_make_batch(table_schema.column_schemas@, table_rows@),
            batch matches Ok(b) ==> {
                &&& b.fields() == batch_fields(table_schema.column_schemas@, table_rows@)
                &&& b.columns() == batch_columns(table_schema.column_schemas@, table_rows@)
            },
    {
        let columns = &table_schema.column_schemas;
        let ghost whole_fields = batch_fields(columns@, table_rows@);
        let ghost whole_columns = batch_columns(columns@, table_rows@);
        let arrays = Self::convert_columns_to_arrays(table_schema, table_rows);
        let mut fields: Vec<arrow::datatypes::Field> = Vec::new();
        let mut i: usize = 0;
        assert(array::fields_held(fields@) =~= whole_fields.take(0));
        while i < columns.len()
            invariant
                i <= columns@.len(),
                columns@ == table_schema.column_schemas@,
                whole_fields == batch_fields(columns@, table_rows@),
                rows_fit(columns@, table_rows@),
                array::fields_held(fields@) == whole_fields.take(i as int),
            decreases columns@.len() - i,
        {
            let column = &columns[i];
            assert(column_fits(table_rows@, i as int));
            let references = Self::column_cells(table_rows, i);
            let data_type = Self::type_of_column(&references);
            let field = data_type::arrow_field(
                &Field::new(column.name.as_str(), data_type, column.nullable),
            );
            assert(array::fields_held(fields@.push(field)) =~= array::fields_held(fields@).push(
                data_type::field_held(field),
            ));
            fields.push(field);
            i += 1;
        }
        proof {
            assert(whole_fields.take(i as int) =~= whole_fields);
            Self::columns_make_batch(columns@, table_rows@, array::array_types(arrays@));
            assert forall|k: int| 0 <= k < arrays@.len() implies array::is_column_type(
                array::array_type(#[trigger] arrays@[k]),
            ) by {
                assert(array::array_types(arrays@)[k] == column_type(cells(table_rows@, k)));
            }
        }
        match EncodedBatch::try_new(fields, arrays) {
            Ok(batch) => Ok(batch),
            Err(message) => Err(BatchError { message }),
        }
    }

    proof fn columns_make_batch<R: Row>(
        columns: Seq<ColumnSchema>,
        rows: Seq<R>,
        types: Seq<TypeView>,
    )
        requires
            types == Seq::new(columns.len(), |i: int| column_type(cells(rows, i))),
        ensures
            rows_make_batch(columns, rows) <==> array::makes_batch(
                batch_fields(columns, rows),
                types,
                batch_columns(columns, rows),
            ),
    {
        let fields = batch_fields(columns, rows);
        let contents = batch_columns(columns, rows);
        if rows_make_batch(columns, rows) {
            assert forall|i: int| 0 <= i < contents.len() implies {
                &&& #[trigger] contents[i].len() == contents[0].len()
                &&& fields[i].data_type == types[i]
                &&& fields[i].nullable || !contents[i].contains(Item::Null)
            } by {
                assert(columns[i].nullable || !column_items(cells(rows, i)).contains(Item::Null));
            }
        }
        if array::makes_batch(fields, types, contents) {
            assert forall|i: int| 0 <= i < columns.len() implies (#[trigger] columns[i]).nullable
                || !column_items(cells(rows, i)).contains(Item::Null) by {
                assert(contents[i].len() == contents[0].len());
            }
        }
    }

    /// The Arrow schema for a Delta schema.
    pub fn delta_schema_to_arrow(delta_schema: &StructType) -> (schema: Schema)
        ensures
            schema@ == delta_schema@.map_values(
                |field: kernel::StructFieldView|
                    FieldView {
                        name: field.name,
                        data_type: arrow_type(field.data_type),
                        nullable: field.nullable,
                        metadata: Map::empty(),
                    },
            ),
    {
        let delta_fields = delta_schema.fields();
        let ghost whole = delta_schema@.map_values(
            |field: kernel::StructFieldView|
                FieldView {
                    name: field.name,
                    data_type: arrow_type(field.data_type),
                    nullable: field.nullable,
                    metadata: Map::empty(),
                },
        );
        let mut fields: Vec<Field> = Vec::new();
        let mut i: usize = 0;
        while i < delta_fields.len()
            invariant
                i <= delta_fields@.len(),
                kernel::field_views(delta_fields@) == delta_schema@,
                whole == delta_schema@.map_values(
                    |field: kernel::StructFieldView|
                        FieldView {
                            name: field.name,
                            data_type: arrow_type(field.data_type),
                            nullable: field.nullable,
                            metadata: Map::empty(),
                        },
                ),
                fields@.len() == i,
                forall|k: int| 0 <= k < i ==> (#[trigger] fields@[k])@ == whole[k],
            decreases delta_fields@.len() - i,
        {
            let field = &delta_fields[i];
            assert(kernel::field_views(delta_fields@)[i as int] == field@);
            let data_type = match &field.data_type {
                KernelType::Primitive(PrimitiveType::Boolean) => DataType::Boolean,
                KernelType::Primitive(PrimitiveType::String) => DataType::Utf8,
                KernelType::Primitive(PrimitiveType::Integer) => DataType::Int32,
                KernelType::Primitive(PrimitiveType::Long) => DataType::Int64,
                KernelType::Primitive(PrimitiveType::Short) => DataType::Int16,
                KernelType::Primitive(PrimitiveType::Float) => DataType::Float32,
                KernelType::Primitive(PrimitiveType::Double) => DataType::Float64,
                KernelType::Primitive(PrimitiveType::Date) => DataType::Date32,
                KernelType::Primitive(PrimitiveType::Timestamp) => DataType::Timestamp(
                    TimeUnit::Microsecond,
                    Some("UTC".to_string()),
                ),
                KernelType::Primitive(PrimitiveType::TimestampNtz) => DataType::Timestamp(
                    TimeUnit::Microsecond,
                    None,
                ),
                KernelType::Primitive(PrimitiveType::Binary) => DataType::Binary,
                _ => DataType::Utf8,
            };
            fields.push(Field::new(field.name.as_str(), data_type, field.nullable));
            i += 1;
        }
        let schema = Schema::new(fields);
        assert(schema@ =~= whole);
        schema
    }

    /// The columns of rows as arrays.
    pub fn convert_columns_to_arrays<R: Row>(table_schema: &TableSchema, table_rows: &Vec<R>) -> (arrays:
        Vec<ArrayData>)
        requires
            rows_fit(table_schema.column_schemas@, table_rows@),
        ensures
            array::array_columns(arrays@) == batch_columns(
                table_schema.column_schemas@,
                table_rows@,
            ),
            array::array_types(arrays@) == Seq::new(
                table_schema.column_schemas@.len(),
                |i: int| column_type(cells(table_rows@, i)),
            ),
    {
        let columns = &table_schema.column_schemas;
        let mut arrays: Vec<ArrayData> = Vec::new();
        let mut i: usize = 0;
        while i < columns.len()
            invariant
                i <= columns@.len(),
                columns@ == table_schema.column_schemas@,
                rows_fit(columns@, table_rows@),
                arrays@.len() == i,
                forall|k: int|
                    0 <= k < i ==> {
                        &&& array_items(#[trigger] arrays@[k]) == column_items(
                            cells(table_rows@, k),
                        )
                        &&& array_type(arrays@[k]) == column_type(cells(table_rows@, k))
                    },
            decreases columns@.len() - i,
        {
            assert(column_fits(table_rows@, i as int));
            let references = Self::column_cells(table_rows, i);
            arrays.push(Self::convert_cell_column_to_array(&references));
            i += 1;
        }
        assert(array::array_columns(arrays@) =~= batch_columns(columns@, table_rows@));
        assert(array::array_types(arrays@) =~= Seq::new(
            columns@.len(),
            |i: int| column_type(cells(table_rows@, i)),
        ));
        arrays
    }

    fn find_first_present<'a>(references: &Vec<&'a Cell>) -> (first: Option<&'a Cell>)
        ensures
            match (first, first_present(referenced(references@))) {
                (Some(cell), Some(expected)) => *cell == expected,
                (None, None) => true,
                _ => false,
            },
    {
        let ghost column = referenced(references@);
        let mut i: usize = 0;
        assert(column.skip(0) =~= column);
        while i < references.len()
            invariant
                i <= references@.len(),
                column == referenced(references@),
                first_present(column.skip(i as int)) == first_present(column),
            decreases references@.len() - i,
        {
            let ghost rest = column.skip(i as int);
            assert(rest[0] == *references@[i as int]);
            match references[i] {
                Cell::Null => {},
                _ => return Some(references[i]),
            }
            assert(rest.skip(1) =~= column.skip(i as int + 1));
            i += 1;
        }
        assert(column.skip(i as int) =~= Seq::empty());
        None
    }

    fn type_of_column(references: &Vec<&Cell>) -> (data_type: DataType)
        ensures
            data_type@ == column_type(referenced(references@)),
    {
        match Self::find_first_present(references) {
            Some(Cell::Bool(_)) => DataType::Boolean,
            Some(Cell::I32(_)) => DataType::Int32,
            Some(Cell::I16(_)) => DataType::Int32,
            _ => DataType::Utf8,
        }
    }

    fn column_texts(references: &Vec<&Cell>) -> (texts: Vec<Option<String>>)
        ensures
            texts@.len() == references@.len(),
            forall|i: int|
                0 <= i < texts@.len() ==> match #[trigger] texts@[i] {
                    Some(text) => column_text(*references@[i]) == Some(text@),
                    None => column_text(*references@[i]) is None,
                },
    {
        let mut texts: Vec<Option<String>> = Vec::new();
        let mut i: usize = 0;
        while i < references.len()
            invariant
                i <= references@.len(),
                texts@.len() == i,
                forall|k: int|
                    0 <= k < i ==> match #[trigger] texts@[k] {
                        Some(text) => column_text(*references@[k]) == Some(text@),
                        None => column_text(*references@[k]) is None,
                    },
            decreases references@.len() - i,
        {
            let text = match references[i] {
                Cell::Null => None,
                Cell::Bytes(bytes) => Some(debug::bytes_debug_text(bytes)),
                Cell::Array(array_cell) => Some(debug::array_debug_text(array_cell)),
                cell => Some(DeltaLakeClient::cell_to_string(cell)),
            };
            texts.push(text);
            i += 1;
        }
        texts
    }

    /// A column as an array of the type of its first value.
    pub fn convert_cell_column_to_array(references: &Vec<&Cell>) -> (array: ArrayData)
        requires
            array::text_bytes(column_items(referenced(references@))) <= i32::MAX,
        ensures
            array_type(array) == column_type(referenced(references@)),
            array_items(array) == column_items(referenced(references@)),
    {
        let ghost column = referenced(references@);
        match Self::find_first_present(references) {
            Some(Cell::Bool(_)) => {
                let array = Self::convert_bool_column(references);
                assert(array_items(array) =~= column_items(column));
                array
            },
            Some(Cell::I32(_)) => {
                let mut values: Vec<Option<i32>> = Vec::new();
                let mut i: usize = 0;
                while i < references.len()
                    invariant
                        i <= references@.len(),
                        values@.len() == i,
                        forall|k: int|
                            0 <= k < i ==> match #[trigger] values@[k] {
                                Some(n) => number_after_i32(*references@[k]) == Some(n as int),
                                None => number_after_i32(*references@[k]) is None,
                            },
                    decreases references@.len() - i,
                {
                    let value: Option<i32> = match references[i] {
                        Cell::I32(n) => Some(*n),
                        Cell::I16(n) => Some(*n as i32),
                        Cell::U32(n) => Some(
                            if *n <= i32::MAX as u32 {
                                *n as i32
                            } else {
                                (*n as i64 - 0x1_0000_0000) as i32
                            },
                        ),
                        _ => None,
                    };
                    values.push(value);
                    i += 1;
                }
                assert(items(values@, array::int32_item()) =~= column_items(column));
                array::int32_array(values)
            },
            Some(Cell::I16(_)) => {
                let mut values: Vec<Option<i32>> = Vec::new();
                let mut i: usize = 0;
                while i < references.len()
                    invariant
                        i <= references@.len(),
                        values@.len() == i,
                        forall|k: int|
                            0 <= k < i ==> match #[trigger] values@[k] {
                                Some(n) => number_after_i16(*references@[k]) == Some(n as int),
                                None => number_after_i16(*references@[k]) is None,
                            },
                    decreases references@.len() - i,
                {
                    let value: Option<i32> = match references[i] {
                        Cell::I16(n) => Some(*n as i32),
                        Cell::I32(n) => Some(*n),
                        _ => None,
                    };
                    values.push(value);
                    i += 1;
                }
                assert(items(values@, array::int32_item()) =~= column_items(column));
                array::int32_array(values)
            },
            _ => {
                let values = Self::column_texts(references);
                assert(items(values@, array::text_item()) =~= column_items(column));
                array::utf8_array(values)
            },
        }
    }

    /// A column of truth values. Anything else is missing.
    pub fn convert_bool_column(references: &Vec<&Cell>) -> (array: ArrayData)
        ensures
            array_type(array) == TypeView::Boolean,
            array_items(array) == Seq::new(
                references@.len(),
                |i: int|
                    match *references@[i] {
                        Cell::Bool(b) => Item::Bool(b),
                        _ => Item::Null,
                    },
            ),
    {
        let mut values: Vec<Option<bool>> = Vec::new();
        let mut i: usize = 0;
        while i < references.len()
            invariant
                i <= references@.len(),
                values@.len() == i,
                forall|k: int|
                    0 <= k < i ==> #[trigger] values@[k] == match *references@[k] {
                        Cell::Bool(b) => Some(b),
                        _ => None,
                    },
            decreases references@.len() - i,
        {
            let value = match references[i] {
                Cell::Bool(b) => Some(*b),
                _ => None,
            };
            values.push(value);
            i += 1;
        }
        let array = array::boolean_array(values);
        assert(array_items(array) =~= Seq::new(
            references@.len(),
            |i: int|
                match *references@[i] {
                    Cell::Bool(b) => Item::Bool(b),
                    _ => Item::Null,
                },
        ));
        array
    }

    /// A column of texts. Anything else is missing.
    pub fn convert_string_column(references: &Vec<&Cell>) -> (array: ArrayData)
        requires
            array::text_bytes(string_items(referenced(references@))) <= i32::MAX,
        ensures
            array_type(array) == TypeView::Utf8,
            array_items(array) == string_items(referenced(references@)),
    {
        let mut values: Vec<Option<String>> = Vec::new();
        let mut i: usize = 0;
        while i < references.len()
            invariant
                i <= references@.len(),
                values@.len() == i,
                forall|k: int|
                    0 <= k < i ==> match (#[trigger] values@[k], *references@[k]) {
                        (Some(text), Cell::String(s)) => text@ == s@,
                        (Some(_), _) | (None, Cell::String(_)) => false,
                        (None, _) => true,
                    },
            decreases references@.len() - i,
        {
            let value = match references[i] {
                Cell::String(s) => Some(s.clone()),
                _ => None,
            };
            values.push(value);
            i += 1;
        }
        assert(items(values@, array::text_item()) =~= string_items(referenced(references@)));
        array::utf8_array(values)
    }

    /// A column of 32-bit integers. Anything else is missing.
    pub fn convert_int32_column(references: &Vec<&Cell>) -> (array: ArrayData)
        ensures
            array_type(array) == TypeView::Int32,
            array_items(array) == Seq::new(
                references@.len(),
                |i: int|
                    match *references@[i] {
                        Cell::I32(n) => Item::Int(n as int),
                        _ => Item::Null,
                    },
            ),
    {
        let mut values: Vec<Option<i32>> = Vec::new();
        let mut i: usize = 0;
        while i < references.len()
            invariant
                i <= references@.len(),
                values@.len() == i,
                forall|k: int|
                    0 <= k < i ==> #[trigger] values@[k] == match *references@[k] {
                        Cell::I32(n) => Some(n),
                        _ => None,
                    },
            decreases references@.len() - i,
        {
            let value: Option<i32> = match references[i] {
                Cell::I32(n) => Some(*n),
                _ => None,
            };
            values.push(value);
            i += 1;
        }
        let array = array::int32_array(values);
        assert(array_items(array) =~= Seq::new(
            references@.len(),
            |i: int|
                match *references@[i] {
                    Cell::I32(n) => Item::Int(n as int),
                    _ => Item::Null,
                },
        ));
        array
    }

    fn list_texts(references: &Vec<&Cell>) -> (texts: Vec<Option<String>>)
        ensures
            items(texts@, array::text_item()) == list_items(referenced(references@)),
    {
        let mut texts: Vec<Option<String>> = Vec::new();
        let mut i: usize = 0;
        while i < references.len()
            invariant
                i <= references@.len(),
                texts@.len() == i,
                forall|k: int|
                    0 <= k < i ==> match (#[trigger] texts@[k], *references@[k]) {
                        (Some(text), Cell::Array(array_cell)) => text@ == debug::array_text(
                            array_cell,
                        ),
                        (Some(_), _) | (None, Cell::Array(_)) => false,
                        (None, _) => true,
                    },
            decreases references@.len() - i,
        {
            let text = match references[i] {
                Cell::Array(array_cell) => Some(debug::array_debug_text(array_cell)),
                _ => None,
            };
            texts.push(text);
            i += 1;
        }
        assert(items(texts@, array::text_item()) =~= list_items(referenced(references@)));
        texts
    }

    /// A column of lists, by their debug texts. Anything else is missing. There is no column if the
    /// texts cannot be counted.
    pub fn convert_array_column(references: &Vec<&Cell>) -> (array: Option<ArrayData>)
        ensures
            array is Some <==> array::text_bytes(list_items(referenced(references@))) <= i32::MAX,
            array matches Some(a) ==> {
                &&& array_type(a) == TypeView::Utf8
                &&& array_items(a) == list_items(referenced(references@))
            },
    {
        let texts = Self::list_texts(references);
        if limits::texts_fit(&texts) {
            Some(array::utf8_array(texts))
        } else {
            None
        }
    }

    /// The number of bytes that a batch is taken to have: eight for each value.
    pub fn estimate_record_batch_size(record_batch: &EncodedBatch) -> (size: usize)
        requires
            record_batch.columns()[0].len() * record_batch.columns().len() * 8 <= usize::MAX,
        ensures
            size == record_batch.columns()[0].len() * record_batch.columns().len() * 8,
    {
        let columns: usize = record_batch.num_columns();
        let rows: usize = record_batch.num_rows();
        assert(record_batch.columns()[0].len() == rows);
        assert(rows * columns <= rows * columns * 8) by (nonlinear_arith)
            requires
                rows >= 0,
                columns >= 0,
        ;
        rows * columns * 8
    }

    /// Splits rows into chunks of about so many megabytes.
    pub fn chunk_table_rows(table_rows: Vec<TableRow>, target_size_mb: usize) -> (chunks: Vec<
        Vec<TableRow>,
    >)
        requires
            table_rows@.len() > 0 ==> target_size_mb * 1048576 <= usize::MAX,
        ensures
            chunks@.map_values(|chunk: Vec<TableRow>| chunk@) == chunked(
                table_rows@,
                rows_per_chunk(target_size_mb as nat),
            ),
    {
        let mut chunks: Vec<Vec<TableRow>> = Vec::new();
        if table_rows.len() == 0 {
            assert(chunks@.map_values(|chunk: Vec<TableRow>| chunk@) =~= Seq::empty());
            return chunks;
        }
        let target_size_bytes: usize = target_size_mb * 1048576;
        let rows_in_chunk: usize = target_size_bytes / ESTIMATED_ROW_SIZE;
        let size: usize = if rows_in_chunk < 1 {
            1
        } else {
            rows_in_chunk
        };
        let ghost whole = chunked(table_rows@, size as nat);
        let mut rest = table_rows;
        assert(chunks@.map_values(|chunk: Vec<TableRow>| chunk@) + chunked(rest@, size as nat)
            =~= whole);
        while rest.len() > size
            invariant
                size >= 1,
                rest@.len() > 0,
                chunks@.map_values(|chunk: Vec<TableRow>| chunk@) + chunked(rest@, size as nat)
                    == whole,
            decreases rest@.len(),
        {
            let ghost before = chunks@.map_values(|chunk: Vec<TableRow>| chunk@);
            let ghost rows = rest@;
            let tail = rest.split_off(size);
            assert(rest@ =~= rows.take(size as int));
            assert(tail@ =~= rows.skip(size as int));
            let ghost head = rest@;
            chunks.push(rest);
            rest = tail;
            assert(chunks@.map_values(|chunk: Vec<TableRow>| chunk@) =~= before.push(head));
            assert(before.push(head) + chunked(rest@, size as nat) =~= before + (seq![head]
                + chunked(rest@, size as nat)));
        }
        let ghost before = chunks@.map_values(|chunk: Vec<TableRow>| chunk@);
        let ghost last = rest@;
        chunks.push(rest);
        assert(chunks@.map_values(|chunk: Vec<TableRow>| chunk@) =~= before.push(last));
        assert(before.push(last) =~= before + seq![last]);
        chunks
    }
}

/// Chunks hold all rows in order.
pub proof fn chunks_hold_all_rows(rows: Seq<TableRow>, size: nat)
    requires
        size > 0,
    ensures
        unchunked(chunked(rows, size)) == rows,
    decreases rows.len(),
{
    let chunks = chunked(rows, size);
    if rows.len() == 0 {
        assert(unchunked(chunks) =~= rows);
    } else if rows.len() <= size {
        assert(unchunked(chunks.skip(1)) =~= Seq::empty());
        assert(unchunked(chunks) =~= rows);
    } else {
        let rest = rows.skip(size as int);
        chunks_hold_all_rows(rest, size);
        assert(chunks.skip(1) =~= chunked(rest, size));
        assert(chunks[0] =~= rows.take(size as int));
        assert(rows.take(size as int) + rest =~= rows);
    }
}

/// Every chunk holds a row, and none holds more than its share.
pub proof fn chunks_have_their_size(rows: Seq<TableRow>, size: nat, i: int)
    requires
        size > 0,
        0 <= i < chunked(rows, size).len(),
    ensures
        0 < chunked(rows, size)[i].len() <= size,
        i < chunked(rows, size).len() - 1 ==> chunked(rows, size)[i].len() == size,
    decreases rows.len(),
{
    if rows.len() > size {
        let rest = rows.skip(size as int);
        assert(chunked(rest, size).len() > 0);
        if i > 0 {
            chunks_have_their_size(rest, size, i - 1);
            assert(chunked(rows, size)[i] == chunked(rest, size)[i - 1]);
        }
    }
}

} // verus!
