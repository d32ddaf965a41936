//! What the predicates for Delta tables are true of.

use vstd::prelude::*;

use crate::batch::array::Item;
use crate::deltalake::destination::{
    WritePlan, any_of, combine_predicates, execute_delete_append_transaction_expr,
    write_table_rows_internal,
};
use crate::deltalake::events::rows_of;
use crate::deltalake::expr;
use crate::deltalake::expr::{
    Expr, ExprView, Operator, build_pk_expr, cell_value, expr_views, key_predicate, qualified_keys,
    qualify_primary_keys,
};
use crate::deltalake::config::DeltaTableConfig;
use crate::deltalake::operations::merge;
use crate::deltalake::operations::merge::{MergeError, MergePlan, merge_to_table};
use crate::error::EtlError;
use crate::types::schema;
use crate::types::{Cell, ColumnSchema, Row, TableRow, TableSchema};

verus! {

/// The value of an expression.
pub enum Value {
    /// A value of a column, or a given one.
    Datum(Item),
    /// Whether a condition holds.
    Truth(bool),
}

/// The value of an expression, given the values of the columns of each relation. A missing value is
/// equal to none.
pub open spec fn value_of(
    expr: ExprView,
    columns: spec_fn(Option<Seq<Seq<char>>>, Seq<char>) -> Item,
) -> Value
    decreases expr,
{
    match expr {
        ExprView::Column { relation, name } => Value::Datum(columns(relation, name)),
        ExprView::Literal { data_type: _, value } => Value::Datum(value),
        ExprView::BinaryExpr { left, op, right } => {
            let a = value_of(*left, columns);
            let b = value_of(*right, columns);
            match op {
                Operator::Eq => Value::Truth(a == b && a != Value::Datum(Item::Null)),
                Operator::And => Value::Truth(a == Value::Truth(true) && b == Value::Truth(true)),
                Operator::Or => Value::Truth(a == Value::Truth(true) || b == Value::Truth(true)),
            }
        },
    }
}

/// Whether a predicate holds, given the values of the columns of each relation.
pub open spec fn holds(
    expr: ExprView,
    columns: spec_fn(Option<Seq<Seq<char>>>, Seq<char>) -> Item,
) -> bool {
    value_of(expr, columns) == Value::Truth(true)
}

/// Whether columns have the values of a row of a table.
pub open spec fn is_row_of(
    columns: spec_fn(Option<Seq<Seq<char>>>, Seq<char>) -> Item,
    schema: Seq<ColumnSchema>,
    row: Seq<Cell>,
) -> bool {
    forall|i: int|
        #![trigger schema[i]]
        0 <= i < schema.len() ==> columns(None, schema[i].name@) == cell_value(schema[i], row[i])
}

proof fn key_predicate_holds(
    schema: Seq<ColumnSchema>,
    key: Seq<Cell>,
    row: Seq<Cell>,
    columns: spec_fn(Option<Seq<Seq<char>>>, Seq<char>) -> Item,
    n: nat,
)
    requires
        n <= schema.len(),
        is_row_of(columns, schema, row),
        key_predicate(schema, key, n) is Some,
    ensures
        holds(key_predicate(schema, key, n)->0, columns) <==> forall|i: int|
            0 <= i < n && (#[trigger] schema[i]).primary ==> cell_value(schema[i], row[i])
                == cell_value(schema[i], key[i]) && cell_value(schema[i], key[i]) != Item::Null,
    decreases n,
{
    if n > 0 {
        let before = (n - 1) as nat;
        let column = schema[n - 1];
        reveal_with_fuel(value_of, 3);
        expr::predicate_needs_primary_key(schema, key, before);
        if key_predicate(schema, key, before) is Some {
            key_predicate_holds(schema, key, row, columns, before);
        }
        if column.primary {
            assert(columns(None, column.name@) == cell_value(column, row[n - 1]));
        }
        assert(forall|i: int|
            0 <= i < n && (#[trigger] schema[i]).primary ==> (i < before || i == n - 1));
    }
}

/// The predicate for the key of a row holds for exactly those rows that have the same values in all
/// columns of the primary key. It does not hold if one of them is missing.
pub proof fn key_predicates_pick_their_row(
    table_schema: TableSchema,
    key: TableRow,
    predicate: Expr,
    row: Seq<Cell>,
    columns: spec_fn(Option<Seq<Seq<char>>>, Seq<char>) -> Item,
)
    requires
        call_ensures(build_pk_expr, (&table_schema, &key), Ok::<_, EtlError>(predicate)),
        is_row_of(columns, table_schema.column_schemas@, row),
    ensures
        holds(predicate@, columns) <==> forall|i: int|
            0 <= i < table_schema.column_schemas@.len() && (
            #[trigger] table_schema.column_schemas@[i]).primary ==> cell_value(
                table_schema.column_schemas@[i],
                row[i],
            ) == cell_value(table_schema.column_schemas@[i], key.values@[i]) && cell_value(
                table_schema.column_schemas@[i],
                key.values@[i],
            ) != Item::Null,
        exists|i: int|
            0 <= i < table_schema.column_schemas@.len() && (
            #[trigger] table_schema.column_schemas@[i]).primary,
{
    let schema = table_schema.column_schemas@;
    key_predicate_holds(schema, key.values@, row, columns, schema.len());
    expr::predicate_needs_primary_key(schema, key.values@, schema.len());
}

proof fn any_of_holds(
    predicates: Seq<ExprView>,
    columns: spec_fn(Option<Seq<Seq<char>>>, Seq<char>) -> Item,
)
    requires
        any_of(predicates) is Some,
        forall|i: int|
            0 <= i < predicates.len() ==> value_of(#[trigger] predicates[i], columns) is Truth,
    ensures
        value_of(any_of(predicates)->0, columns) is Truth,
        holds(any_of(predicates)->0, columns) <==> exists|i: int|
            0 <= i < predicates.len() && holds(#[trigger] predicates[i], columns),
    decreases predicates.len(),
{
    let before = predicates.drop_last();
    let last = predicates.len() - 1;
    assert forall|i: int| 0 <= i < before.len() implies value_of(
        #[trigger] before[i],
        columns,
    ) is Truth by {
        assert(before[i] == predicates[i]);
    }
    assert(predicates[last] == predicates.last());
    assert(value_of(predicates[last], columns) is Truth);
    reveal_with_fuel(value_of, 2);
    if any_of(before) is Some {
        any_of_holds(before, columns);
        if exists|i: int| 0 <= i < before.len() && holds(#[trigger] before[i], columns) {
            let i = choose|i: int| 0 <= i < before.len() && holds(#[trigger] before[i], columns);
            assert(holds(predicates[i], columns));
        }
        if exists|i: int| 0 <= i < predicates.len() && holds(#[trigger] predicates[i], columns) {
            let i = choose|i: int|
                0 <= i < predicates.len() && holds(#[trigger] predicates[i], columns);
            if i < last {
                assert(holds(before[i], columns));
            }
        }
    } else {
        crate::deltalake::destination::any_of_some(before);
        assert(predicates.len() == 1);
    }
}

/// Combined predicates hold exactly where one of them does.
pub proof fn combined_predicates_hold_where_one_does(
    predicates: Vec<Expr>,
    combined: Option<Expr>,
    columns: spec_fn(Option<Seq<Seq<char>>>, Seq<char>) -> Item,
)
    requires
        call_ensures(combine_predicates, (predicates,), combined),
        forall|i: int|
            0 <= i < predicates@.len() ==> value_of(
                (#[trigger] predicates@[i])@,
                columns,
            ) is Truth,
    ensures
        combined is None <==> predicates@.len() == 0,
        combined matches Some(c) ==> (holds(c@, columns) <==> exists|i: int|
            0 <= i < predicates@.len() && holds((#[trigger] predicates@[i])@, columns)),
{
    let views = expr_views(predicates@);
    crate::deltalake::destination::any_of_some(views);
    assert forall|i: int| 0 <= i < views.len() implies value_of(
        #[trigger] views[i],
        columns,
    ) is Truth by {
        assert(views[i] == predicates@[i]@);
    }
    if views.len() > 0 {
        any_of_holds(views, columns);
        if exists|i: int| 0 <= i < views.len() && holds(#[trigger] views[i], columns) {
            let i = choose|i: int| 0 <= i < views.len() && holds(#[trigger] views[i], columns);
            assert(holds(predicates@[i]@, columns));
        }
        if exists|i: int|
            0 <= i < predicates@.len() && holds((#[trigger] predicates@[i])@, columns) {
            let i = choose|i: int|
                0 <= i < predicates@.len() && holds((#[trigger] predicates@[i])@, columns);
            assert(holds(views[i], columns));
        }
    }
}

/// Whether columns have the values of a new row in the source of a merge, and those of a row of the
/// table in its target.
pub open spec fn are_rows_of(
    columns: spec_fn(Option<Seq<Seq<char>>>, Seq<char>) -> Item,
    schema: Seq<ColumnSchema>,
    source: Seq<Cell>,
    target: Seq<Cell>,
) -> bool {
    forall|i: int|
        #![trigger schema[i]]
        0 <= i < schema.len() ==> {
            &&& columns(Some(seq!["source"@]), schema[i].name@) == cell_value(schema[i], source[i])
            &&& columns(Some(seq!["target"@]), schema[i].name@) == cell_value(schema[i], target[i])
        }
}

proof fn match_predicate_holds(
    schema: Seq<ColumnSchema>,
    source: Seq<Cell>,
    target: Seq<Cell>,
    columns: spec_fn(Option<Seq<Seq<char>>>, Seq<char>) -> Item,
    n: int,
)
    requires
        0 <= n <= schema.len(),
        are_rows_of(columns, schema, source, target),
    ensures
        merge::match_predicate(schema::primary_key_names(schema.take(n))) matches Some(predicate)
            ==> (holds(predicate, columns) <==> forall|i: int|
            0 <= i < n && (#[trigger] schema[i]).primary ==> cell_value(schema[i], source[i])
                == cell_value(schema[i], target[i]) && cell_value(schema[i], source[i])
                != Item::Null),
        merge::match_predicate(schema::primary_key_names(schema.take(n))) is None ==> forall|i: int|
            0 <= i < n ==> !(#[trigger] schema[i]).primary,
    decreases n,
{
    let some = schema.take(n);
    if n > 0 {
        let fewer = schema.take(n - 1);
        let column = schema[n - 1];
        match_predicate_holds(schema, source, target, columns, n - 1);
        assert(some.drop_last() =~= fewer);
        assert(some.last() == column);
        let names = schema::primary_key_names(some);
        let indices = schema::primary_key_indices(fewer);
        schema::primary_key_indices_are_columns(fewer);
        schema::primary_key_indices_are_columns(some);
        reveal_with_fuel(value_of, 3);
        if column.primary {
            assert(names.drop_last() =~= schema::primary_key_names(fewer)) by {
                assert forall|k: int| 0 <= k < indices.len() implies names[k]
                    == schema::primary_key_names(fewer)[k] by {
                    assert(0 <= indices[k] < fewer.len());
                    assert(fewer[indices[k]] == some[indices[k]]);
                }
            }
            assert(names.last() == column.name@);
            assert(names.len() > 0);
        } else {
            assert(names =~= schema::primary_key_names(fewer)) by {
                assert forall|k: int| 0 <= k < indices.len() implies names[k]
                    == schema::primary_key_names(fewer)[k] by {
                    assert(0 <= indices[k] < fewer.len());
                    assert(fewer[indices[k]] == some[indices[k]]);
                }
            }
        }
        assert(forall|i: int|
            0 <= i < n && (#[trigger] schema[i]).primary ==> (i < n - 1 || i == n - 1));
    }
}

/// A merge matches a new row and a row of the table exactly if they have the same values in all
/// columns of the primary key. A new row that is added, or that replaces a row of the table, brings
/// all its values.
pub proof fn merges_match_rows_by_their_key<R: Row>(
    config: DeltaTableConfig,
    table_schema: TableSchema,
    rows: &[R],
    delete_predicate: Option<Expr>,
    plan: MergePlan,
    source: Seq<Cell>,
    target: Seq<Cell>,
    columns: spec_fn(Option<Seq<Seq<char>>>, Seq<char>) -> Item,
)
    requires
        call_ensures(
            merge_to_table::<R>,
            (&config, &table_schema, rows, delete_predicate),
            Ok::<_, MergeError>(plan),
        ),
        are_rows_of(columns, table_schema.column_schemas@, source, target),
    ensures
        holds(plan.predicate@, columns) <==> forall|i: int|
            0 <= i < table_schema.column_schemas@.len() && (
            #[trigger] table_schema.column_schemas@[i]).primary ==> cell_value(
                table_schema.column_schemas@[i],
                source[i],
            ) == cell_value(table_schema.column_schemas@[i], target[i]) && cell_value(
                table_schema.column_schemas@[i],
                source[i],
            ) != Item::Null,
        plan.inserts@.len() == table_schema.column_schemas@.len(),
        plan.updates@.len() == table_schema.column_schemas@.len(),
        forall|i: int|
            #![trigger table_schema.column_schemas@[i]]
            0 <= i < table_schema.column_schemas@.len() ==> {
                let column = table_schema.column_schemas@[i];
                &&& plan.inserts@[i].0@ == column.name@
                &&& plan.updates@[i].0@ == column.name@
                &&& value_of(plan.inserts@[i].1@, columns) == Value::Datum(
                    cell_value(column, source[i]),
                )
                &&& value_of(plan.updates@[i].1@, columns) == Value::Datum(
                    cell_value(column, source[i]),
                )
            },
        plan.delete_predicate == delete_predicate,
        plan.properties.writer_version == config.parquet_version,
        plan.properties.compression == config.compression,
{
    let schema = table_schema.column_schemas@;
    match_predicate_holds(schema, source, target, columns, schema.len() as int);
    assert(schema.take(schema.len() as int) =~= schema);
    assert forall|i: int| #![trigger schema[i]] 0 <= i < schema.len() implies {
        &&& plan.inserts@[i].0@ == schema[i].name@
        &&& plan.updates@[i].0@ == schema[i].name@
        &&& value_of(plan.inserts@[i].1@, columns) == Value::Datum(cell_value(schema[i], source[i]))
        &&& value_of(plan.updates@[i].1@, columns) == Value::Datum(cell_value(schema[i], source[i]))
    } by {
        assert(plan.inserts@[i].0@ == schema[i].name@);
        assert(plan.updates@[i].0@ == schema[i].name@);
    }
}

/// Whether columns have values in two relations of which one is the source of a merge and the other
/// its target: what is asked of a column that is to match.
pub open spec fn agrees(
    columns: spec_fn(Option<Seq<Seq<char>>>, Seq<char>) -> Item,
    source: Seq<char>,
    target: Seq<char>,
    name: Seq<char>,
) -> bool {
    let left = columns(Some(seq![source]), name);
    left != Item::Null && left == columns(Some(seq![target]), name)
}

proof fn qualified_keys_hold(
    keys: Seq<ExprView>,
    source: Seq<char>,
    target: Seq<char>,
    columns: spec_fn(Option<Seq<Seq<char>>>, Seq<char>) -> Item,
)
    requires
        expr::table_reference(source) == seq![source],
        expr::table_reference(target) == seq![target],
    ensures
        qualified_keys(keys, source, target) matches Some(predicate) ==> (holds(predicate, columns)
            <==> forall|i: int|
            0 <= i < keys.len() ==> (#[trigger] keys[i] matches ExprView::Column { relation, name }
                ==> agrees(columns, source, target, name))),
    decreases keys.len(),
{
    if keys.len() > 0 {
        let before = keys.drop_last();
        let last = keys.len() - 1;
        qualified_keys_hold(before, source, target, columns);
        expr::qualified_keys_need_columns(before, source, target);
        reveal_with_fuel(value_of, 3);
        assert(keys[last] == keys.last());
        assert forall|i: int| 0 <= i < before.len() implies #[trigger] before[i] == keys[i] by {}
        if forall|i: int|
            0 <= i < keys.len() ==> (#[trigger] keys[i] matches ExprView::Column { relation, name }
                ==> agrees(columns, source, target, name)) {
            assert forall|i: int| 0 <= i < before.len() implies (
            #[trigger] before[i] matches ExprView::Column { relation, name } ==> agrees(
                columns,
                source,
                target,
                name,
            )) by {
                assert(before[i] == keys[i]);
            }
        }
        if (forall|i: int|
            0 <= i < before.len() ==> (
            #[trigger] before[i] matches ExprView::Column { relation, name } ==> agrees(
                columns,
                source,
                target,
                name,
            ))) && (keys[last] matches ExprView::Column { relation, name } ==> agrees(
            columns,
            source,
            target,
            name,
        )) {
            assert forall|i: int| 0 <= i < keys.len() implies (
            #[trigger] keys[i] matches ExprView::Column { relation, name } ==> agrees(
                columns,
                source,
                target,
                name,
            )) by {
                if i < last {
                    assert(before[i] == keys[i]);
                }
            }
        }
    }
}

/// Qualified keys hold exactly where every column among them is equal in the source and in the
/// target.
pub proof fn qualified_keys_compare_both_sides(
    keys: Vec<Expr>,
    source: &str,
    target: &str,
    qualified: Option<Expr>,
    columns: spec_fn(Option<Seq<Seq<char>>>, Seq<char>) -> Item,
)
    requires
        call_ensures(qualify_primary_keys, (keys, source, target), qualified),
        expr::is_plain_name(source@),
        expr::is_plain_name(target@),
    ensures
        qualified is None <==> forall|i: int|
            0 <= i < keys@.len() ==> !((#[trigger] keys@[i])@ is Column),
        qualified matches Some(predicate) ==> (holds(predicate@, columns) <==> forall|i: int|
            0 <= i < keys@.len() ==> ((#[trigger] keys@[i])@ matches ExprView::Column {
                relation,
                name,
            } ==> agrees(columns, source@, target@, name))),
{
    let views = expr_views(keys@);
    assert forall|i: int| 0 <= i < views.len() implies #[trigger] views[i] == keys@[i]@ by {}
    expr::qualified_keys_need_columns(views, source@, target@);
    if qualified is Some {
        qualified_keys_hold(views, source@, target@, columns);
        if forall|i: int|
            0 <= i < keys@.len() ==> ((#[trigger] keys@[i])@ matches ExprView::Column {
                relation,
                name,
            } ==> agrees(columns, source@, target@, name)) {
            assert forall|i: int| 0 <= i < views.len() implies (
            #[trigger] views[i] matches ExprView::Column { relation, name } ==> agrees(
                columns,
                source@,
                target@,
                name,
            )) by {
                assert(views[i] == keys@[i]@);
            }
        }
        if holds(qualified->0@, columns) {
            assert forall|i: int| 0 <= i < keys@.len() implies ((
            #[trigger] keys@[i])@ matches ExprView::Column { relation, name } ==> agrees(
                columns,
                source@,
                target@,
                name,
            )) by {
                assert(views[i] == keys@[i]@);
            }
        }
    } else {
        assert forall|i: int| 0 <= i < keys@.len() implies !((#[trigger] keys@[i])@ is Column) by {
            assert(views[i] == keys@[i]@);
        }
    }
}

/// What is to be written is written in its order, and what is to be deleted is deleted. There is
/// nothing to do exactly if there is neither.
pub proof fn plans_write_and_delete_everything(
    upsert_rows: Vec<&TableRow>,
    delete_predicates: Vec<Expr>,
    plan: WritePlan<'_>,
)
    requires
        call_ensures(
            execute_delete_append_transaction_expr,
            (upsert_rows, delete_predicates),
            plan,
        ),
    ensures
        plan is Nothing <==> upsert_rows@.len() == 0 && delete_predicates@.len() == 0,
        plan is Delete <==> upsert_rows@.len() == 0 && delete_predicates@.len() > 0,
        plan is Merge <==> upsert_rows@.len() > 0,
        plan is Merge ==> {
            &&& plan->rows@.len() == upsert_rows@.len()
            &&& forall|i: int|
                0 <= i < upsert_rows@.len() ==> *(#[trigger] plan->rows@[i]) == *upsert_rows@[i]
            &&& plan->delete_predicate is None <==> delete_predicates@.len() == 0
        },
        plan matches WritePlan::Delete(predicate) ==> any_of(expr_views(delete_predicates@)) == Some(
            predicate@,
        ),
        plan is Merge && plan->delete_predicate is Some ==> any_of(expr_views(delete_predicates@))
            == Some(plan->delete_predicate->0@),
{
    crate::deltalake::destination::any_of_some(expr_views(delete_predicates@));
    if plan is Merge {
        assert(rows_of(plan->rows@).len() == plan->rows@.len());
        assert(rows_of(upsert_rows@).len() == upsert_rows@.len());
        assert forall|i: int| 0 <= i < upsert_rows@.len() implies *(#[trigger] plan->rows@[i])
            == *upsert_rows@[i] by {
            assert(rows_of(plan->rows@)[i] == rows_of(upsert_rows@)[i]);
        }
    }
}

/// Rows to add are all added, in their order.
pub proof fn all_rows_are_added(table_rows: Vec<&TableRow>, plan: WritePlan<'_>)
    requires
        call_ensures(write_table_rows_internal, (table_rows,), plan),
    ensures
        plan is Nothing <==> table_rows@.len() == 0,
        table_rows@.len() > 0 ==> (plan matches WritePlan::Append(rows) && {
            &&& rows@.len() == table_rows@.len()
            &&& forall|i: int|
                0 <= i < rows@.len() ==> *(#[trigger] rows@[i]) == *table_rows@[i]
        }),
{
    if let WritePlan::Append(rows) = plan {
        assert(rows_of(rows@).len() == rows@.len());
        assert(rows_of(table_rows@).len() == table_rows@.len());
        assert forall|i: int| 0 <= i < rows@.len() implies *(#[trigger] rows@[i])
            == *table_rows@[i] by {
            assert(rows_of(rows@)[i] == rows_of(table_rows@)[i]);
        }
    }
}

} // verus!
