//! Merging rows into Delta tables.

use vstd::prelude::*;

use crate::batch::array::EncodedBatch;
use crate::batch::encoding;
use crate::batch::encoding::{BatchError, batch_items, rows_fit, rows_make_batch};
use crate::batch::limits;
use crate::deltalake::config;
use crate::deltalake::config::{DeltaTableConfig, WriterProperties};
use crate::deltalake::expr;
use crate::deltalake::expr::{
    Column, Expr, ExprView, Operator, has_primary_key, qualify_primary_keys,
};
use crate::deltalake::schema::{
    column_names_differ, is_repeated_name, postgres_arrow_fields, postgres_to_arrow_fields,
    postgres_to_arrow_schema,
};
use crate::types::schema;
use crate::types::{ColumnSchema, Row, TableSchema};

verus! {

/// The name of the new rows in a merge.
pub const SOURCE_ALIAS: &'static str = "source";

/// The name of the table in a merge.
pub const TARGET_ALIAS: &'static str = "target";

/// A column of the new rows, by the name that they have in a merge. The name of the column stays
/// as it is.
pub fn source_qualified_column_expr(column_name: &str, source_alias: &str) -> (expr: Expr)
    ensures
        expr@ == expr::qualified_column(source_alias@, column_name@),
        expr::is_plain_name(source_alias@) ==> expr@ == (ExprView::Column {
            relation: Some(seq![source_alias@]),
            name: column_name@,
        }),
{
    Expr::Column(Column::new(source_alias, column_name))
}

/// Why rows cannot be merged.
#[derive(Debug)]
pub enum MergeError {
    /// A column of the table has this name, which is that of an earlier column.
    Schema(String),
    /// The rows do not have the types of the columns.
    Batch(BatchError),
    /// There is no column to match rows by.
    NoPrimaryKey(&'static str),
}

/// How rows are merged into a table.
pub struct MergePlan {
    /// The new rows.
    pub batch: EncodedBatch,
    /// When a new row matches a row of the table.
    pub predicate: Expr,
    /// The values of the columns of a new row that matches no row of the table.
    pub inserts: Vec<(String, Expr)>,
    /// The values of the columns of a row of the table that a new row matches.
    pub updates: Vec<(String, Expr)>,
    /// Which rows of the table are deleted if no new row matches them.
    pub delete_predicate: Option<Expr>,
    /// How the files are written.
    pub properties: WriterProperties,
}

/// A column of the new rows or of the table.
pub open spec fn aliased_column(alias: Seq<char>, name: Seq<char>) -> ExprView {
    ExprView::Column { relation: Some(seq![alias]), name }
}

/// When a new row matches a row of the table: all columns of the primary key are equal.
pub open spec fn match_predicate(names: Seq<Seq<char>>) -> Option<ExprView>
    decreases names.len(),
{
    if names.len() == 0 {
        None
    } else {
        let before = match_predicate(names.drop_last());
        let condition = expr::binary(
            aliased_column("source"@, names.last()),
            Operator::Eq,
            aliased_column("target"@, names.last()),
        );
        match before {
            Some(conditions) => Some(expr::binary(conditions, Operator::And, condition)),
            None => Some(condition),
        }
    }
}

/// Whether assignments give every column of a table the value that it has in the new row.
pub open spec fn take_source_values(
    assignments: Seq<(String, Expr)>,
    columns: Seq<ColumnSchema>,
) -> bool {
    &&& assignments.len() == columns.len()
    &&& forall|i: int|
        0 <= i < columns.len() ==> {
            &&& (#[trigger] assignments[i]).0@ == columns[i].name@
            &&& assignments[i].1@ == aliased_column("source"@, columns[i].name@)
        }
}

proof fn aliases_are_plain()
    ensures
        expr::is_plain_name("source"@),
        expr::is_plain_name("target"@),
{
    reveal_strlit("source");
    reveal_strlit("target");
}

/// The keys of a merge, with the names of both sides in them.
proof fn keys_match(keys: Seq<ExprView>, names: Seq<Seq<char>>)
    requires
        keys == names.map_values(|name: Seq<char>| expr::unqualified_column(name)),
        expr::table_reference("source"@) == seq!["source"@],
        expr::table_reference("target"@) == seq!["target"@],
    ensures
        expr::qualified_keys(keys, "source"@, "target"@) == match_predicate(names),
    decreases names.len(),
{
    if names.len() > 0 {
        assert(keys.drop_last() =~= names.drop_last().map_values(
            |name: Seq<char>| expr::unqualified_column(name),
        ));
        keys_match(keys.drop_last(), names.drop_last());
    }
}

fn take_source_columns(columns: &Vec<ColumnSchema>) -> (assignments: Vec<(String, Expr)>)
    ensures
        take_source_values(assignments@, columns@),
{
    let mut assignments: Vec<(String, Expr)> = Vec::new();
    let mut i: usize = 0;
    proof {
        aliases_are_plain();
    }
    while i < columns.len()
        invariant
            i <= columns@.len(),
            expr::is_plain_name("source"@),
            assignments@.len() == i,
            forall|k: int|
                0 <= k < i ==> {
                    &&& (#[trigger] assignments@[k]).0@ == columns@[k].name@
                    &&& assignments@[k].1@ == aliased_column("source"@, columns@[k].name@)
                },
        decreases columns@.len() - i,
    {
        let name = &columns[i].name;
        assignments.push((name.clone(), source_qualified_column_expr(name.as_str(), "source")));
        i += 1;
    }
    assignments
}

/// The columns of the primary key.
fn primary_key_exprs(table_schema: &TableSchema) -> (keys: Vec<Expr>)
    ensures
        expr::expr_views(keys@) == schema::primary_key_names(table_schema.column_schemas@).map_values(
            |name: Seq<char>| expr::unqualified_column(name),
        ),
{
    let columns = &table_schema.column_schemas;
    let positions = schema::primary_key_positions(columns.as_slice());
    let mut keys: Vec<Expr> = Vec::new();
    let mut i: usize = 0;
    let ghost indices = schema::primary_key_indices(columns@);
    proof {
        schema::primary_key_indices_are_columns(columns@);
        assert forall|k: int| 0 <= k < positions@.len() implies #[trigger] positions@[k]
            == indices[k] && positions@[k] < columns@.len() by {
            assert(positions@.map_values(|i: usize| i as int)[k] == positions@[k]);
            assert(0 <= indices[k] < columns@.len());
        }
        assert(positions@.map_values(|i: usize| i as int).len() == positions@.len());
    }
    while i < positions.len()
        invariant
            i <= positions@.len(),
            columns@ == table_schema.column_schemas@,
            forall|k: int|
                0 <= k < positions@.len() ==> #[trigger] positions@[k] == indices[k]
                    && positions@[k] < columns@.len(),
            keys@.len() == i,
            forall|k: int|
                0 <= k < i ==> (#[trigger] keys@[k])@ == expr::unqualified_column(
                    columns@[positions@[k] as int].name@,
                ),
        decreases positions@.len() - i,
    {
        keys.push(Expr::Column(Column::new_unqualified(columns[positions[i]].name.as_str())));
        i += 1;
    }
    assert(expr::expr_views(keys@) =~= schema::primary_key_names(columns@).map_values(
        |name: Seq<char>| expr::unqualified_column(name),
    ));
    keys
}

/// Whether rows can be merged into a table: no two columns have the same name, the rows have the
/// types of the columns, and there is a primary key to match them by.
pub open spec fn can_merge<R: Row>(columns: Seq<ColumnSchema>, rows: Seq<R>) -> bool {
    &&& column_names_differ(columns)
    &&& rows_make_batch(rows, postgres_arrow_fields(columns))
    &&& has_primary_key(columns)
}

/// Whether a plan merges rows into a table: a row that matches one of the table by the primary
/// key replaces it, and every other row is added.
pub open spec fn merges<R: Row>(
    plan: MergePlan,
    config: DeltaTableConfig,
    columns: Seq<ColumnSchema>,
    rows: Seq<R>,
    delete_predicate: Option<Expr>,
) -> bool {
    &&& plan.batch.fields() == postgres_arrow_fields(columns)
    &&& plan.batch.columns() == batch_items(rows, postgres_arrow_fields(columns))
    &&& match_predicate(schema::primary_key_names(columns)) == Some(plan.predicate@)
    &&& take_source_values(plan.inserts@, columns)
    &&& take_source_values(plan.updates@, columns)
    &&& plan.delete_predicate == delete_predicate
    &&& plan.properties == config::writer_properties(config)
}

/// Whether an error tells why rows cannot be merged. What is wrong with the columns is told
/// first, and what is wrong with the rows before that there is no primary key.
pub open spec fn is_merge_error<R: Row>(
    error: MergeError,
    columns: Seq<ColumnSchema>,
    rows: Seq<R>,
) -> bool {
    match error {
        MergeError::Schema(name) => is_repeated_name(columns, name@),
        MergeError::Batch(_) => column_names_differ(columns) && !rows_make_batch(
            rows,
            postgres_arrow_fields(columns),
        ),
        MergeError::NoPrimaryKey(message) => {
            &&& column_names_differ(columns)
            &&& rows_make_batch(rows, postgres_arrow_fields(columns))
            &&& !has_primary_key(columns)
            &&& message@ == "Failed to qualify primary keys"@
        },
    }
}

/// How rows are merged into a table.
pub fn merge_to_table<R: Row>(
    config: &DeltaTableConfig,
    table_schema: &TableSchema,
    upsert_rows: &[R],
    delete_predicate: Option<Expr>,
) -> (plan: Result<MergePlan, MergeError>)
    requires
        rows_fit(upsert_rows@, postgres_arrow_fields(table_schema.column_schemas@)),
    ensures
        plan is Ok <==> can_merge(table_schema.column_schemas@, upsert_rows@),
        plan matches Ok(p) ==> merges(
            p,
            *config,
            table_schema.column_schemas@,
            upsert_rows@,
            delete_predicate,
        ),
        plan matches Err(error) ==> is_merge_error(
            error,
            table_schema.column_schemas@,
            upsert_rows@,
        ),
{
    let arrow_schema = match postgres_to_arrow_schema(table_schema) {
        Ok(arrow_schema) => arrow_schema,
        Err(name) => return Err(MergeError::Schema(name)),
    };
    let batch = match encoding::rows_to_record_batch(upsert_rows, arrow_schema) {
        Ok(batch) => batch,
        Err(error) => return Err(MergeError::Batch(error)),
    };
    let primary_keys = primary_key_exprs(table_schema);
    let ghost names = schema::primary_key_names(table_schema.column_schemas@);
    let ghost keys = expr::expr_views(primary_keys@);
    proof {
        aliases_are_plain();
        schema::primary_key_indices_are_columns(table_schema.column_schemas@);
        expr::qualified_keys_need_columns(keys, "source"@, "target"@);
        assert(keys.len() == names.len());
        if names.len() > 0 {
            assert(keys[0] is Column);
        }
    }
    let predicate = match qualify_primary_keys(primary_keys, SOURCE_ALIAS, TARGET_ALIAS) {
        Some(predicate) => predicate,
        None => return Err(MergeError::NoPrimaryKey("Failed to qualify primary keys")),
    };
    proof {
        keys_match(keys, names);
    }
    Ok(
        MergePlan {
            batch,
            predicate,
            inserts: take_source_columns(&table_schema.column_schemas),
            updates: take_source_columns(&table_schema.column_schemas),
            delete_predicate,
            properties: WriterProperties {
                writer_version: config.parquet_version,
                compression: config.compression,
            },
        },
    )
}

/// How rows are merged into a table, for any rows: nothing if a row ends before a column of the
/// table, or if a column cannot be stored.
pub fn try_merge_to_table<R: Row>(
    config: &DeltaTableConfig,
    table_schema: &TableSchema,
    upsert_rows: &[R],
    delete_predicate: Option<Expr>,
) -> (plan: Option<Result<MergePlan, MergeError>>)
    ensures
        plan is Some <==> rows_fit(
            upsert_rows@,
            postgres_arrow_fields(table_schema.column_schemas@),
        ),
        plan matches Some(result) ==> {
            &&& result is Ok <==> can_merge(table_schema.column_schemas@, upsert_rows@)
            &&& result matches Ok(p) ==> merges(
                p,
                *config,
                table_schema.column_schemas@,
                upsert_rows@,
                delete_predicate,
            )
            &&& result matches Err(error) ==> is_merge_error(
                error,
                table_schema.column_schemas@,
                upsert_rows@,
            )
        },
{
    if limits::rows_can_be_stored(upsert_rows, &postgres_to_arrow_fields(table_schema)) {
        Some(merge_to_table(config, table_schema, upsert_rows, delete_predicate))
    } else {
        None
    }
}

} // verus!
