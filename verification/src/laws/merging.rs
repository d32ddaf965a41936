//! Rows are merged if they can be, and refused for what is wrong otherwise.

use vstd::prelude::*;

use crate::batch::array::{EncodedBatch, Item};
use crate::batch::cells;
use crate::batch::data_type::{Field, Schema, TypeView};
use crate::batch::encoding;
use crate::batch::encoding::{BatchError, rows_to_record_batch};
use crate::deltalake::config::DeltaTableConfig;
use crate::deltalake::expr;
use crate::deltalake::expr::{Column, Expr, ExprView, Operator, build_pk_expr};
use crate::deltalake::operations::merge::{
    MergeError, MergePlan, merge_to_table, source_qualified_column_expr,
};
use crate::deltalake::schema;
use crate::deltalake::schema::{
    column_names_differ, postgres_arrow_field, postgres_to_arrow_field, postgres_to_arrow_schema,
};
use crate::error::EtlError;
use crate::laws::batches::{can_hold, stands_for};
use crate::laws::predicates::{holds, value_of};
use crate::types::schema::{is_array, primary_key_indices, primary_key_positions};
use crate::types::{Cell, ColumnSchema, Row, TableRow, TableSchema};

verus! {

/// Rows are merged exactly if the columns make a table, the rows make a batch with them, and there
/// is a primary key. What is wrong is told in that order.
pub proof fn rows_are_merged_unless_something_is_wrong<R: Row>(
    config: &DeltaTableConfig,
    table_schema: &TableSchema,
    rows: &[R],
    delete_predicate: Option<Expr>,
    plan: Result<MergePlan, MergeError>,
    schema: Schema,
    batch: Result<EncodedBatch, BatchError>,
)
    requires
        call_ensures(merge_to_table::<R>, (config, table_schema, rows, delete_predicate), plan),
        call_ensures(postgres_to_arrow_schema, (table_schema,), Ok::<_, String>(schema)),
        call_ensures(rows_to_record_batch::<R>, (rows, schema), batch),
    ensures
        ({
            let columns = table_schema.column_schemas@;
            let keyed = exists|i: int| 0 <= i < columns.len() && (#[trigger] columns[i]).primary;
            &&& plan is Ok <==> batch is Ok && keyed
            &&& (plan is Ok && batch is Ok) ==> {
                &&& plan->Ok_0.batch.columns() == batch->Ok_0.columns()
                &&& plan->Ok_0.batch.fields() == batch->Ok_0.fields()
            }
            &&& batch is Err ==> (plan matches Err(error) && error is Batch)
            &&& batch is Ok && !keyed ==> (plan matches Err(MergeError::NoPrimaryKey(message))
                && message@ == "Failed to qualify primary keys"@)
        }),
{
    schema::arrow_schema_keeps_columns(table_schema.column_schemas@);
    let columns = table_schema.column_schemas@;
    if let Err(MergeError::Schema(name)) = plan {
        let (i, j) = choose|i: int, j: int|
            {
                &&& 0 <= i < j < columns.len()
                &&& name@ == #[trigger] columns[i].name@
                &&& name@ == #[trigger] columns[j].name@
                &&& column_names_differ(columns.take(j))
            };
        assert(columns[i].name@ == columns[j].name@);
    }
}

/// Columns that make no table are refused with the name that occurs again.
pub proof fn repeated_columns_are_not_merged<R: Row>(
    config: &DeltaTableConfig,
    table_schema: &TableSchema,
    rows: &[R],
    delete_predicate: Option<Expr>,
    plan: Result<MergePlan, MergeError>,
    i: int,
    j: int,
)
    requires
        call_ensures(merge_to_table::<R>, (config, table_schema, rows, delete_predicate), plan),
        0 <= i < j < table_schema.column_schemas@.len(),
        table_schema.column_schemas@[i].name@ == table_schema.column_schemas@[j].name@,
    ensures
        plan matches Err(error) && (error matches MergeError::Schema(name) && exists|a: int, b: int|
            0 <= a < b < table_schema.column_schemas@.len() && (
            #[trigger] table_schema.column_schemas@[a]).name@ == name@ && (
            #[trigger] table_schema.column_schemas@[b]).name@ == name@),
{
    let columns = table_schema.column_schemas@;
    assert(!column_names_differ(columns));
    if let Err(MergeError::Schema(name)) = plan {
        let (a, b) = choose|a: int, b: int|
            {
                &&& 0 <= a < b < columns.len()
                &&& name@ == #[trigger] columns[a].name@
                &&& name@ == #[trigger] columns[b].name@
                &&& column_names_differ(columns.take(b))
            };
        assert(columns[a].name@ == name@ && columns[b].name@ == name@);
    }
}

/// An expression of two others is true where the operator says so.
pub proof fn operators_mean_what_they_say(
    left: Expr,
    right: Expr,
    equal: Expr,
    both: Expr,
    one: Expr,
    columns: spec_fn(Option<Seq<Seq<char>>>, Seq<char>) -> Item,
)
    requires
        call_ensures(Expr::equals, (left, right), equal),
        call_ensures(Expr::and, (left, right), both),
        call_ensures(Expr::or, (left, right), one),
    ensures
        equal@ == (ExprView::BinaryExpr {
            left: Box::new(left@),
            op: Operator::Eq,
            right: Box::new(right@),
        }),
        both@ == (ExprView::BinaryExpr {
            left: Box::new(left@),
            op: Operator::And,
            right: Box::new(right@),
        }),
        one@ == (ExprView::BinaryExpr {
            left: Box::new(left@),
            op: Operator::Or,
            right: Box::new(right@),
        }),
        holds(both@, columns) <==> holds(left@, columns) && holds(right@, columns),
        holds(one@, columns) <==> holds(left@, columns) || holds(right@, columns),
        holds(equal@, columns) ==> value_of(left@, columns) == value_of(right@, columns),
{
    reveal_with_fuel(value_of, 3);
}

/// A column keeps its name, and the relation that it is of.
pub proof fn columns_keep_their_names(
    name: &str,
    relation: &str,
    plain: Column,
    qualified: Column,
    source: Expr,
)
    requires
        call_ensures(Column::new_unqualified, (name,), plain),
        call_ensures(Column::new, (relation, name), qualified),
        call_ensures(source_qualified_column_expr, (name, relation), source),
    ensures
        plain@ == (ExprView::Column { relation: None, name: name@ }),
        qualified@ matches ExprView::Column { relation: Some(_), name: kept } && kept == name@,
        source@ == qualified@,
        expr::is_plain_name(relation@) ==> qualified@ == (ExprView::Column {
            relation: Some(seq![relation@]),
            name: name@,
        }),
{
}

/// The value of a cell in a predicate over a column is the value of the cell, where the column can
/// hold it, and nothing otherwise.
pub proof fn predicates_compare_the_values_of_cells(column: ColumnSchema, cell: Cell)
    requires
        !is_array(column.typ),
    ensures
        ({
            let data_type = postgres_arrow_field(column).data_type;
            let value = expr::cell_value(column, cell);
            if can_hold(data_type, cell) {
                stands_for(value, cell)
            } else {
                value == Item::Null
            }
        }),
{
    let data_type = postgres_arrow_field(column).data_type;
    assert(encoding::column_items(data_type, seq![cell])[0]
        == cells::scalar_item(data_type, seq![cell][0]));
}

/// A comparison of a column with a value of a type.
pub struct Comparison {
    /// The name of the column.
    pub name: Seq<char>,
    /// The type of the value.
    pub data_type: TypeView,
    /// The value.
    pub value: Item,
}

/// The comparisons of columns with values that a condition is made of, in order.
pub open spec fn comparisons(condition: ExprView) -> Seq<Comparison>
    decreases condition,
{
    match condition {
        ExprView::BinaryExpr { left, op, right } => match (*left, op, *right) {
            (
                ExprView::Column { relation: None, name },
                Operator::Eq,
                ExprView::Literal { data_type, value },
            ) => seq![Comparison { name, data_type, value }],
            (_, Operator::And, _) => comparisons(*left) + comparisons(*right),
            _ => Seq::empty(),
        },
        _ => Seq::empty(),
    }
}

/// The predicate of a row compares each column of the primary key, in order, with the value that the
/// row has in it, in the type that the rows are encoded in.
pub proof fn predicates_compare_the_columns_of_the_key(
    table_schema: &TableSchema,
    row: &TableRow,
    predicate: Expr,
    columns: &[ColumnSchema],
    positions: Vec<usize>,
    k: int,
    field: Field,
)
    requires
        call_ensures(build_pk_expr, (table_schema, row), Ok::<_, EtlError>(predicate)),
        columns@ == table_schema.column_schemas@,
        call_ensures(primary_key_positions, (columns,), positions),
        0 <= k < positions@.len(),
        call_ensures(postgres_to_arrow_field, (&columns@[positions@[k] as int],), field),
    ensures
        comparisons(predicate@).len() == positions@.len(),
        comparisons(predicate@)[k].name == field@.name,
        comparisons(predicate@)[k].data_type == field@.data_type,
        comparisons(predicate@)[k].value == expr::cell_value(
            columns@[positions@[k] as int],
            row.values@[positions@[k] as int],
        ),
{
    let all = columns@;
    key_columns_are_compared(all, row.values@, all.len());
    assert(all.take(all.len() as int) =~= all);
    let indices = primary_key_indices(all);
    assert(positions@.map_values(|i: usize| i as int) == indices);
    assert(positions@.map_values(|i: usize| i as int)[k] == positions@[k]);
}

proof fn key_columns_are_compared(columns: Seq<ColumnSchema>, values: Seq<Cell>, n: nat)
    requires
        n <= columns.len(),
    ensures
        ({
            let indices = primary_key_indices(columns.take(n as int));
            match expr::key_predicate(columns, values, n) {
                Some(predicate) => comparisons(predicate) == indices.map_values(
                    |i: int|
                        Comparison {
                            name: columns[i].name@,
                            data_type: postgres_arrow_field(columns[i]).data_type,
                            value: expr::cell_value(columns[i], values[i]),
                        },
                ),
                None => indices.len() == 0,
            }
        }),
    decreases n,
{
    if n > 0 {
        let m = (n - 1) as nat;
        key_columns_are_compared(columns, values, m);
        assert(columns.take(n as int).drop_last() =~= columns.take(m as int));
        assert(columns.take(n as int).last() == columns[m as int]);
        reveal_with_fuel(comparisons, 2);
        let compared = |i: int|
            Comparison {
                name: columns[i].name@,
                data_type: postgres_arrow_field(columns[i]).data_type,
                value: expr::cell_value(columns[i], values[i]),
            };
        let before = primary_key_indices(columns.take(m as int));
        if columns[m as int].primary {
            assert(before.push(m as int).map_values(compared) =~= before.map_values(compared)
                + seq![compared(m as int)]);
            if expr::key_predicate(columns, values, m) is None {
                assert(before.map_values(compared) =~= Seq::empty());
                assert(before.push(m as int).map_values(compared) =~= seq![compared(m as int)]);
            }
        }
    }
}

/// A row has a predicate exactly if the table has a primary key and every cell of it that must not
/// be missing has a value.
pub proof fn rows_with_a_key_have_a_predicate(
    table_schema: &TableSchema,
    row: &TableRow,
    result: Result<Expr, EtlError>,
)
    requires
        call_ensures(build_pk_expr, (table_schema, row), result),
        forall|i: int|
            0 <= i < table_schema.column_schemas@.len() && (
            #[trigger] table_schema.column_schemas@[i]).primary ==> !is_array(
                table_schema.column_schemas@[i].typ,
            ),
    ensures
        ({
            let columns = table_schema.column_schemas@;
            &&& result is Ok <==> (exists|i: int|
                0 <= i < columns.len() && (#[trigger] columns[i]).primary) && (forall|i: int|
                0 <= i < columns.len() && (#[trigger] columns[i]).primary ==> columns[i].nullable
                    || can_hold(postgres_arrow_field(columns[i]).data_type, row.values@[i]))
            &&& result matches Err(error) ==> error.kind is ConversionError
            &&& (result is Err && forall|i: int|
                0 <= i < columns.len() ==> !(#[trigger] columns[i]).primary) ==> {
                &&& result->Err_0.description@ == "Table has no primary key columns"@
                &&& result->Err_0.detail is None
            }
            &&& (result is Err && exists|i: int|
                0 <= i < columns.len() && (#[trigger] columns[i]).primary) ==> {
                &&& result->Err_0.description@ == "Failed to convert row to Arrow array"@
                &&& result->Err_0.detail is Some
            }
        }),
{
    let columns = table_schema.column_schemas@;
    assert forall|i: int| 0 <= i < columns.len() && (#[trigger] columns[i]).primary implies (
    expr::cell_converts(columns[i], row.values@[i]) <==> columns[i].nullable || can_hold(
        postgres_arrow_field(columns[i]).data_type,
        row.values@[i],
    )) by {
        predicates_compare_the_values_of_cells(columns[i], row.values@[i]);
    }
    if expr::key_converts(columns, row.values@) {
        assert forall|i: int| 0 <= i < columns.len() && (#[trigger] columns[i]).primary implies (
        columns[i].nullable || can_hold(
            postgres_arrow_field(columns[i]).data_type,
            row.values@[i],
        )) by {
            assert(expr::cell_converts(columns[i], row.values@[i]));
        }
    } else {
        let i = choose|i: int|
            0 <= i < columns.len() && (#[trigger] columns[i]).primary && !expr::cell_converts(
                columns[i],
                row.values@[i],
            );
        assert(columns[i].primary);
    }
}

} // verus!
