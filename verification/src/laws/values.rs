//! Values keep what they are made of.

use std::sync::Arc;

use arrow::array::ArrayData;
use vstd::prelude::*;

use crate::batch::array::{EncodedBatch, array_items, array_type};
use crate::batch::data_type::{DataType, Field, Schema, TimeUnit, TypeView, metadata_map};
use crate::config::encryption::{EncryptionError, generate_random_key};
use crate::delta;
use crate::delta::client::DeltaLakeClient;
use crate::deltalake;
use crate::deltalake::config::{CommitCount, DeltaTableConfig, TableConfigs};
use crate::deltalake::maintenance::TableMaintenanceState;
use crate::deltalake::util::lwwreg::Validation;
use crate::kernel::{ArrayType, KernelType, PrimitiveType, StructField, StructType};
use crate::types::cell;
use crate::types::{Cell, ColumnSchema, Json, PgType, TableId, TableName, TableRow, TableSchema};

verus! {

/// A table keeps its number, its name and its columns.
pub proof fn tables_are_what_they_are_made_of(
    schema: String,
    name: String,
    table_name: TableName,
    id: TableId,
    columns: Vec<ColumnSchema>,
    table: TableSchema,
    whole: String,
)
    requires
        call_ensures(TableName::new, (schema, name), table_name),
        call_ensures(TableSchema::new, (id, table_name, columns), table),
        call_ensures(TableName::to_text, (&table_name,), whole),
    ensures
        table_name.schema == schema,
        table_name.name == name,
        table.id == id,
        table.name == table_name,
        table.column_schemas == columns,
        whole@ == schema@ + seq!['.'] + name@,
{
}

/// A column of a table keeps what is said of it.
pub proof fn columns_are_what_they_are_made_of(
    name: String,
    typ: PgType,
    modifier: i32,
    nullable: bool,
    primary: bool,
    column: ColumnSchema,
)
    requires
        call_ensures(ColumnSchema::new, (name, typ, modifier, nullable, primary), column),
    ensures
        column.name == name,
        column.typ == typ,
        column.modifier == modifier,
        column.nullable == nullable,
        column.primary == primary,
{
}

/// A row keeps its cells, and a JSON value the texts that it is written as.
pub proof fn rows_and_documents_are_what_they_are_made_of(
    values: Vec<Cell>,
    row: TableRow,
    source: &str,
    json: Option<Json>,
)
    requires
        call_ensures(TableRow::new, (values,), row),
        call_ensures(Json::parse, (source,), json),
    ensures
        row.values == values,
        json matches Some(j) ==> Some(j.text@) == cell::json_text(source@) && Some(j.debug@)
            == cell::json_debug_text(source@),
        json is None ==> cell::json_text(source@) is None || cell::json_debug_text(source@) is None,
{
}

/// A column of an Arrow schema keeps its name, its type and its nullability, and a schema its
/// columns in order.
pub proof fn arrow_columns_are_what_they_are_made_of(
    name: &str,
    data_type: DataType,
    nullable: bool,
    field: Field,
    fields: Vec<Field>,
    schema: Schema,
)
    requires
        call_ensures(Field::new, (name, data_type, nullable), field),
        call_ensures(Schema::new, (fields,), schema),
    ensures
        field@.name == name@,
        field@.data_type == data_type@,
        field@.nullable == nullable,
        field@.metadata == Map::<Seq<char>, Seq<char>>::empty(),
        schema@.len() == fields@.len(),
        forall|i: int| 0 <= i < fields@.len() ==> schema@[i] == (#[trigger] fields@[i])@,
{
}

/// What a type of a column stands for is the type of its name.
pub proof fn types_stand_for_themselves(
    data_type: DataType,
    unit: TimeUnit,
    zone: String,
    width: i32,
    field: Field,
)
    ensures
        data_type@ is Boolean <==> data_type is Boolean,
        data_type@ is Int16 <==> data_type is Int16,
        data_type@ is Int32 <==> data_type is Int32,
        data_type@ is Int64 <==> data_type is Int64,
        data_type@ is Float32 <==> data_type is Float32,
        data_type@ is Float64 <==> data_type is Float64,
        data_type@ is Utf8 <==> data_type is Utf8,
        data_type@ is Binary <==> data_type is Binary,
        data_type@ is LargeBinary <==> data_type is LargeBinary,
        data_type@ is Date32 <==> data_type is Date32,
        DataType::Time64(unit)@ == TypeView::Time64(unit),
        DataType::Timestamp(unit, None)@ == TypeView::Timestamp(unit, None),
        DataType::Timestamp(unit, Some(zone))@ == TypeView::Timestamp(unit, Some(zone@)),
        DataType::FixedSizeBinary(width)@ == TypeView::FixedSizeBinary(width),
        DataType::List(Box::new(field))@ == TypeView::List(Box::new(field@)),
        field@.name == field.name@,
        field@.data_type == field.data_type@,
        field@.nullable == field.nullable,
{
    reveal_with_fuel(crate::batch::data_type::type_view, 2);
    reveal_with_fuel(crate::batch::data_type::field_view, 2);
}

/// Of two notes under one key the later one counts, and notes under other keys stay.
pub proof fn later_notes_count(notes: Seq<(String, String)>, note: (String, String), other: Seq<char>)
    ensures
        metadata_map(notes.push(note)).contains_key(note.0@),
        metadata_map(notes.push(note))[note.0@] == note.1@,
        other != note.0@ ==> {
            &&& metadata_map(notes.push(note)).contains_key(other) <==> metadata_map(
                notes,
            ).contains_key(other)
            &&& metadata_map(notes.push(note))[other] == metadata_map(notes)[other]
        },
        notes.len() == 0 ==> !metadata_map(notes).contains_key(other),
{
    assert(notes.push(note).drop_last() =~= notes);
}

/// A column of a Delta table keeps its name, its type and its nullability, and a type of lists that
/// of its elements.
pub proof fn delta_columns_are_what_they_are_made_of(
    name: &String,
    data_type: KernelType,
    nullable: bool,
    field: StructField,
    element_type: PrimitiveType,
    contains_null: bool,
    array_type: ArrayType,
    schema: StructType,
    fields: Vec<StructField>,
)
    requires
        call_ensures(StructField::new, (name, data_type, nullable), field),
        call_ensures(ArrayType::new, (element_type, contains_null), array_type),
        call_ensures(StructType::into_fields, (schema,), fields),
    ensures
        field@.name == name@,
        field@.data_type == data_type,
        field@.nullable == nullable,
        array_type.element_type == element_type,
        array_type.contains_null == contains_null,
        fields@.len() == schema@.len(),
        forall|i: int| 0 <= i < fields@.len() ==> (#[trigger] fields@[i])@ == schema@[i],
{
    let views = crate::kernel::field_views(fields@);
    assert(views == schema@);
    assert forall|i: int| 0 <= i < fields@.len() implies (#[trigger] fields@[i])@ == schema@[i] by {
        assert(views[i] == fields@[i]@);
    }
}

/// A batch tells how many rows and columns it has, and hands out its columns.
pub proof fn batches_tell_what_they_hold(
    batch: &EncodedBatch,
    rows: usize,
    columns: usize,
    index: usize,
    column: &ArrayData,
)
    requires
        call_ensures(EncodedBatch::num_rows, (batch,), rows),
        call_ensures(EncodedBatch::num_columns, (batch,), columns),
        index < batch.columns().len(),
        call_ensures(EncodedBatch::column, (batch, index), column),
    ensures
        columns == batch.columns().len(),
        columns >= 1,
        forall|c: int| 0 <= c < columns ==> #[trigger] batch.columns()[c].len() == rows,
        array_items(*column) == batch.columns()[index as int],
        array_type(*column) == batch.fields()[index as int].data_type,
{
}

/// A number of commits is the one that it is made of, and never none.
pub proof fn commits_are_counted_from_one(commits: u64, count: Option<CommitCount>, number: u64)
    requires
        call_ensures(CommitCount::new, (commits,), count),
        count matches Some(c) ==> call_ensures(CommitCount::get, (&c,), number),
    ensures
        count is None <==> commits == 0,
        count is Some ==> number == commits,
{
}

/// A configuration that is set is the one that is found, and those of other tables stay.
pub proof fn configurations_are_found_again(
    state: &mut TableConfigs,
    after: TableConfigs,
    table_name: String,
    config: Arc<DeltaTableConfig>,
    name: &str,
    found: Arc<DeltaTableConfig>,
)
    requires
        after == *final(state),
        call_ensures(TableConfigs::insert, (state, table_name, config), ()),
        call_ensures(TableConfigs::config_for_table_name, (&after, name), found),
    ensures
        name@ == table_name@ ==> found == config,
        name@ != table_name@ && old(state)@.contains_key(name@) ==> found == old(state)@[name@],
        name@ != table_name@ ==> (after@.contains_key(name@) <==> old(state)@.contains_key(name@)),
{
}

/// What is configured where nothing is: a table takes changes, is compacted after a hundred
/// commits, and its files are of the first version, with Snappy. Tables are stored below a local
/// directory.
pub proof fn defaults_are_as_documented(
    table: DeltaTableConfig,
    destination: delta::destination::DeltaDestinationConfig,
    client: DeltaLakeClient,
)
    requires
        call_ensures(<DeltaTableConfig as Default>::default, (), table),
        call_ensures(<delta::destination::DeltaDestinationConfig as Default>::default, (), destination),
        call_ensures(<DeltaLakeClient as Default>::default, (), client),
    ensures
        !table.append_only,
        table.parquet_version is Parquet1,
        table.compression is Snappy,
        table.compact_after_commits matches Some(commits) && commits.number() == 100,
        table.z_order_columns is None,
        table.z_order_after_commits is None,
        destination.base_uri@ == "file:///tmp/delta"@,
        destination.storage_options is None,
        destination.partition_columns is None,
        destination.optimize_after_commits is None,
        client.options() is None,
{
}

/// A random key has as many bytes as are asked for.
pub proof fn random_keys_have_their_length<const KEY_BYTES: usize>(
    key: Result<Vec<u8>, EncryptionError>,
)
    requires
        call_ensures(generate_random_key::<KEY_BYTES>, (), key),
    ensures
        key matches Ok(bytes) ==> bytes@.len() == KEY_BYTES,
{
}

/// What is said of a marker that is used again.
pub proof fn reused_markers_are_described(validation: &Validation, whole: &'static str)
    requires
        call_ensures(Validation::description, (validation,), whole),
    ensures
        whole@
            == "A marker must be used exactly once, re-using the same marker breaks associativity"@,
{
}

/// A destination goes by its name.
pub proof fn destinations_have_a_name<S, T, H>(name: &'static str)
    requires
        call_ensures(deltalake::destination::DeltaLakeDestination::<S, T, H>::name, (), name),
    ensures
        name@ == "deltalake"@,
{
}

/// The configuration of a table is the one that the destination was configured with.
pub proof fn destinations_know_their_configurations<S, T, H>(
    destination: &deltalake::destination::DeltaLakeDestination<S, T, H>,
    name: &str,
    config: Arc<DeltaTableConfig>,
    found: Arc<DeltaTableConfig>,
)
    requires
        call_ensures(
            deltalake::destination::DeltaLakeDestination::<S, T, H>::config_for_table_name,
            (destination, name),
            config,
        ),
        call_ensures(
            TableConfigs::config_for_table_name,
            (&destination.config_of().table_config, name),
            found,
        ),
    ensures
        destination.config_of().table_config@.contains_key(name@) ==> config == found,
        config.append_only == found.append_only,
        config.parquet_version == found.parquet_version,
        config.compression == found.compression,
        config.compact_after_commits is Some <==> found.compact_after_commits is Some,
        config.z_order_columns == found.z_order_columns,
        config.z_order_after_commits == found.z_order_after_commits,
{
}

/// A table that is open is found, and no other.
pub proof fn open_tables_are_found<S, T, H>(
    destination: &deltalake::destination::DeltaLakeDestination<S, T, H>,
    table_id: TableId,
    table: Option<&T>,
    kernel: &delta::destination::DeltaLakeDestination<S, T>,
    path: &str,
    at_path: Option<&T>,
)
    requires
        call_ensures(
            deltalake::destination::DeltaLakeDestination::<S, T, H>::cached_table,
            (destination, table_id),
            table,
        ),
        call_ensures(
            delta::destination::DeltaLakeDestination::<S, T>::cached_table,
            (kernel, path),
            at_path,
        ),
    ensures
        table is Some <==> destination.tables().contains_key(table_id.0),
        table matches Some(t) ==> *t == destination.tables()[table_id.0],
        at_path is Some <==> kernel.tables().contains_key(path@),
        at_path matches Some(t) ==> *t == kernel.tables()[path@],
{
}

/// The open table of a number is the one that was there, or else the given one. What is made of it
/// is there from then on; other tables, and all maintenance, stay as they are.
pub proof fn open_tables_are_handed_out<S, T, H>(
    state: &mut deltalake::destination::DeltaLakeDestination<S, T, H>,
    after: deltalake::destination::DeltaLakeDestination<S, T, H>,
    table_id: TableId,
    table: T,
    held: &mut T,
    left: T,
    other: u32,
)
    requires
        after == *final(state),
        left == *final(held),
        call_ensures(
            deltalake::destination::DeltaLakeDestination::<S, T, H>::table_handle,
            (state, table_id, table),
            held,
        ),
    ensures
        old(state).tables().contains_key(table_id.0) ==> *old(held)
            == old(state).tables()[table_id.0],
        !old(state).tables().contains_key(table_id.0) ==> *old(held) == table,
        after.tables().contains_key(table_id.0),
        after.tables()[table_id.0] == left,
        other != table_id.0 ==> {
            &&& after.tables().contains_key(other) <==> old(state).tables().contains_key(other)
            &&& after.tables().contains_key(other) ==> after.tables()[other] == old(
                state,
            ).tables()[other]
        },
        after.maintained() == old(state).maintained(),
        after.config_of() == old(state).config_of(),
{
}

/// The maintenance of a table is the one that was there, or else starts at the version of the table
/// with no task. What is made of it is there from then on; that of other tables, and all open
/// tables, stay as they are.
pub proof fn maintenance_is_handed_out<S, T, H>(
    state: &mut deltalake::destination::DeltaLakeDestination<S, T, H>,
    after: deltalake::destination::DeltaLakeDestination<S, T, H>,
    table_id: TableId,
    current_version: i64,
    held: &mut TableMaintenanceState<H>,
    left: TableMaintenanceState<H>,
    other: u32,
)
    requires
        after == *final(state),
        left == *final(held),
        call_ensures(
            deltalake::destination::DeltaLakeDestination::<S, T, H>::maintenance_state_for,
            (state, table_id, current_version),
            held,
        ),
    ensures
        old(state).maintained().contains_key(table_id.0) ==> *old(held) == old(
            state,
        ).maintained()[table_id.0],
        !old(state).maintained().contains_key(table_id.0) ==> {
            &&& old(held).inner.last_compacted_version == current_version
            &&& old(held).inner.last_zordered_version == current_version
            &&& old(held).inner.compaction_task is None
            &&& old(held).inner.zorder_task is None
        },
        after.maintained().contains_key(table_id.0),
        after.maintained()[table_id.0] == left,
        other != table_id.0 ==> {
            &&& after.maintained().contains_key(other) <==> old(state).maintained().contains_key(
                other,
            )
            &&& after.maintained().contains_key(other) ==> after.maintained()[other] == old(
                state,
            ).maintained()[other]
        },
        after.tables() == old(state).tables(),
        after.config_of() == old(state).config_of(),
{
}

} // verus!
