//! What can be stored is treated like any other, and what cannot is told beforehand.

use vstd::prelude::*;

use crate::batch::array::EncodedBatch;
use crate::batch::cells;
use crate::batch::data_type::Schema;
use crate::batch::encoding;
use crate::batch::encoding::BatchError;
use crate::batch::limits;
use crate::delta;
use crate::delta::encoding::TableRowEncoder;
use crate::deltalake;
use crate::deltalake::config::DeltaTableConfig;
use crate::deltalake::destination::WritePlan;
use crate::deltalake::events;
use crate::deltalake::events::{
    materialize_events, materialize_events_append_only, try_materialize_events,
    try_materialize_events_append_only,
};
use crate::deltalake::expr::{
    Expr, build_pk_expr, expr_views, key_can_be_stored, try_build_pk_expr,
};
use crate::deltalake::operations::merge::{
    MergeError, MergePlan, merge_to_table, try_merge_to_table,
};
use crate::deltalake::schema::{postgres_arrow_field, postgres_to_arrow_schema};
use crate::error::EtlError;
use crate::laws::events::{changes_are_of_events, events_make_changes, touches};
use crate::laws::limits::bytes_of_texts_are_counted;
use crate::types::schema::is_array;
use crate::types::{Cell, Event, Row, TableRow, TableSchema};

verus! {

/// The key of a row can be stored exactly if the row has a cell for every column of the primary
/// key, and no text among them takes more bytes than 32 bits with a sign can count.
pub proof fn keys_can_be_stored_up_to_their_limit(
    table_schema: &TableSchema,
    row: &TableRow,
    fit: bool,
)
    requires
        call_ensures(key_can_be_stored, (table_schema, row), fit),
        forall|i: int|
            0 <= i < table_schema.column_schemas@.len() && (
            #[trigger] table_schema.column_schemas@[i]).primary ==> !is_array(
                table_schema.column_schemas@[i].typ,
            ),
    ensures
        fit <==> forall|i: int|
            0 <= i < table_schema.column_schemas@.len() && (
            #[trigger] table_schema.column_schemas@[i]).primary ==> i < row.values@.len() && (
            postgres_arrow_field(table_schema.column_schemas@[i]).data_type is Utf8 ==> text_fits(
                row.values@[i],
            )),
{
    let columns = table_schema.column_schemas@;
    assert forall|i: int|
        0 <= i < columns.len() && (#[trigger] columns[i]).primary && i
            < row.values@.len() implies (deltalake::expr::cell_fits(columns[i], row.values@[i]) <==> (
    postgres_arrow_field(columns[i]).data_type is Utf8 ==> text_fits(row.values@[i]))) by {
        let data_type = postgres_arrow_field(columns[i]).data_type;
        let cell = row.values@[i];
        let items = encoding::column_items(data_type, seq![cell]);
        assert(items.len() == 1);
        assert(items[0] == cells::scalar_item(data_type, seq![cell][0]));
        assert(items =~= seq![items[0]]);
        bytes_of_texts_are_counted(items, Seq::empty(), items[0]);
    }
}

/// Whether the text of a cell can be counted in 32 bits with a sign. Cells without a text can.
pub open spec fn text_fits(cell: Cell) -> bool {
    match cell {
        Cell::String(s) => vstd::utf8::encode_utf8(s@).len() <= 0x7fff_ffff,
        Cell::Numeric(n) => vstd::utf8::encode_utf8(n.text@).len() <= 0x7fff_ffff,
        Cell::Json(j) => vstd::utf8::encode_utf8(j.text@).len() <= 0x7fff_ffff,
        _ => true,
    }
}

/// A row whose key can be stored has the predicate that it has, and no other row is asked for one.
pub proof fn keys_that_can_be_stored_have_a_predicate(
    table_schema: &TableSchema,
    row: &TableRow,
    fit: bool,
    tried: Option<Result<Expr, EtlError>>,
    built: Result<Expr, EtlError>,
)
    requires
        call_ensures(key_can_be_stored, (table_schema, row), fit),
        call_ensures(try_build_pk_expr, (table_schema, row), tried),
        call_ensures(build_pk_expr, (table_schema, row), built),
    ensures
        tried is Some <==> fit,
        tried matches Some(result) ==> {
            &&& result is Ok <==> built is Ok
            &&& (result is Ok && built is Ok) ==> result->Ok_0@ == built->Ok_0@
            &&& (result is Err && built is Err) ==> {
                &&& result->Err_0.kind == built->Err_0.kind
                &&& result->Err_0.description@ == built->Err_0.description@
            }
        },
{
}

/// Events come to what they come to if the keys of all rows that they write or remove can be
/// stored, and to nothing that is known otherwise.
pub proof fn events_with_keys_that_can_be_stored_are_taken(
    events: &[Event],
    table_schema: &TableSchema,
    append_only: bool,
    fit: spec_fn(TableRow) -> bool,
    tried: Option<Result<(Vec<Expr>, Vec<&TableRow>), EtlError>>,
    taken: Result<(Vec<Expr>, Vec<&TableRow>), EtlError>,
)
    requires
        forall|row: TableRow|
            call_ensures(key_can_be_stored, (table_schema, &row), #[trigger] fit(row)),
        call_ensures(try_materialize_events, (events, table_schema, append_only), tried),
        call_ensures(materialize_events, (events, table_schema, append_only), taken),
    ensures
        tried is Some <==> forall|i: int, row: TableRow|
            0 <= i < events@.len() && #[trigger] touches(events@[i], append_only, row) ==> fit(row),
        tried matches Some(result) ==> {
            &&& result is Ok <==> taken is Ok
            &&& (result is Ok && taken is Ok) ==> {
                &&& expr_views(result->Ok_0.0@) == expr_views(taken->Ok_0.0@)
                &&& events::rows_of(result->Ok_0.1@) == events::rows_of(taken->Ok_0.1@)
            }
            &&& (result is Err && taken is Err) ==> {
                &&& result->Err_0.kind == taken->Err_0.kind
                &&& result->Err_0.description@ == taken->Err_0.description@
            }
        },
{
    keys_fit_where_rows_do(*table_schema, events@, append_only, fit);
}

proof fn keys_fit_where_rows_do(
    table_schema: TableSchema,
    events: Seq<Event>,
    append_only: bool,
    fit: spec_fn(TableRow) -> bool,
)
    requires
        forall|row: TableRow|
            call_ensures(key_can_be_stored, (&table_schema, &row), #[trigger] fit(row)),
    ensures
        events::keys_fit(table_schema, events::changes(events, append_only)) <==> forall|
            i: int,
            row: TableRow,
        |
            0 <= i < events.len() && #[trigger] touches(events[i], append_only, row) ==> fit(row),
{
    let all = events::changes(events, append_only);
    if events::keys_fit(table_schema, all) {
        assert forall|i: int, row: TableRow|
            0 <= i < events.len() && #[trigger] touches(events[i], append_only, row) implies fit(
            row,
        ) by {
            let k = events::changes(events.take(i), append_only).len() as int;
            changes_are_of_events(events, append_only, i);
            assert(all[k].row == row);
        }
    } else {
        let k = choose|k: int|
            0 <= k < all.len() && !deltalake::expr::key_fits(
                table_schema.column_schemas@,
                (#[trigger] all[k]).row.values@,
            );
        let i = events_make_changes(events, append_only, k);
        assert(touches(events[i], append_only, all[k].row));
        assert(!fit(all[k].row));
    }
}

/// Events of a table that takes only additions are taken under the same condition.
pub proof fn additions_with_keys_that_can_be_stored_are_taken(
    events: &[Event],
    table_schema: &TableSchema,
    tried: Option<Result<Vec<&TableRow>, EtlError>>,
    taken: Result<Vec<&TableRow>, EtlError>,
    any: Option<Result<(Vec<Expr>, Vec<&TableRow>), EtlError>>,
)
    requires
        call_ensures(try_materialize_events_append_only, (events, table_schema), tried),
        call_ensures(materialize_events_append_only, (events, table_schema), taken),
        call_ensures(try_materialize_events, (events, table_schema, true), any),
    ensures
        tried is Some <==> any is Some,
        tried matches Some(result) ==> {
            &&& result is Ok <==> taken is Ok
            &&& (result is Ok && taken is Ok) ==> events::rows_of(result->Ok_0@) == events::rows_of(
                taken->Ok_0@,
            )
        },
{
}

/// What is written for events is the same, where their keys can be stored.
pub proof fn plans_are_made_where_keys_can_be_stored(
    config: &DeltaTableConfig,
    table_schema: &TableSchema,
    events: &[Event],
    tried: Option<Result<WritePlan<'_>, EtlError>>,
    made: Result<WritePlan<'_>, EtlError>,
    any: Option<Result<(Vec<Expr>, Vec<&TableRow>), EtlError>>,
)
    requires
        call_ensures(
            deltalake::destination::try_process_table_events,
            (config, table_schema, events),
            tried,
        ),
        call_ensures(
            deltalake::destination::process_table_events,
            (config, table_schema, events),
            made,
        ),
        call_ensures(try_materialize_events, (events, table_schema, config.append_only), any),
    ensures
        tried is Some <==> any is Some,
        tried matches Some(result) ==> {
            &&& result is Ok <==> made is Ok
            &&& (result is Ok && made is Ok) ==> {
                &&& result->Ok_0 is Nothing <==> made->Ok_0 is Nothing
                &&& result->Ok_0 is Append <==> made->Ok_0 is Append
                &&& result->Ok_0 is Delete <==> made->Ok_0 is Delete
                &&& result->Ok_0 is Merge <==> made->Ok_0 is Merge
            }
        },
{
}

/// Rows that can be stored are merged as they are.
pub proof fn rows_that_can_be_stored_are_merged<R: Row>(
    config: &DeltaTableConfig,
    table_schema: &TableSchema,
    rows: &[R],
    delete_predicate: Option<Expr>,
    schema: Schema,
    fit: bool,
    tried: Option<Result<MergePlan, MergeError>>,
    merged: Result<MergePlan, MergeError>,
)
    requires
        call_ensures(postgres_to_arrow_schema, (table_schema,), Ok::<_, String>(schema)),
        call_ensures(limits::rows_can_be_stored::<R>, (rows, &schema), fit),
        call_ensures(try_merge_to_table::<R>, (config, table_schema, rows, delete_predicate), tried),
        call_ensures(merge_to_table::<R>, (config, table_schema, rows, delete_predicate), merged),
    ensures
        tried is Some <==> fit,
        tried matches Some(result) ==> {
            &&& result is Ok <==> merged is Ok
            &&& (result is Ok && merged is Ok) ==> {
                &&& result->Ok_0.predicate@ == merged->Ok_0.predicate@
                &&& result->Ok_0.batch.columns() == merged->Ok_0.batch.columns()
                &&& result->Ok_0.delete_predicate == merged->Ok_0.delete_predicate
                &&& result->Ok_0.properties == merged->Ok_0.properties
                &&& result->Ok_0.inserts@.len() == merged->Ok_0.inserts@.len()
                &&& result->Ok_0.updates@.len() == merged->Ok_0.updates@.len()
                &&& forall|i: int|
                    #![trigger merged->Ok_0.inserts@[i]]
                    0 <= i < merged->Ok_0.inserts@.len() ==> {
                        &&& result->Ok_0.inserts@[i].0@ == merged->Ok_0.inserts@[i].0@
                        &&& result->Ok_0.inserts@[i].1@ == merged->Ok_0.inserts@[i].1@
                        &&& result->Ok_0.updates@[i].0@ == merged->Ok_0.updates@[i].0@
                        &&& result->Ok_0.updates@[i].1@ == merged->Ok_0.updates@[i].1@
                    }
            }
        },
{
    if tried is Some && tried->0 is Ok && merged is Ok {
        let left = tried->0->Ok_0;
        let right = merged->Ok_0;
        let columns = table_schema.column_schemas@;
        assert forall|i: int|
            #![trigger right.inserts@[i]]
            0 <= i < right.inserts@.len() implies {
            &&& left.inserts@[i].0@ == right.inserts@[i].0@
            &&& left.inserts@[i].1@ == right.inserts@[i].1@
            &&& left.updates@[i].0@ == right.updates@[i].0@
            &&& left.updates@[i].1@ == right.updates@[i].1@
        } by {
            assert(left.inserts@[i].0@ == columns[i].name@);
            assert(right.inserts@[i].0@ == columns[i].name@);
            assert(left.updates@[i].0@ == columns[i].name@);
            assert(right.updates@[i].0@ == columns[i].name@);
        }
    }
}

/// Rows that can be stored are encoded with the columns of their table as they are.
pub proof fn table_rows_that_can_be_stored_are_encoded<R: Row>(
    table_schema: &TableSchema,
    rows: &[R],
    schema: Schema,
    fit: bool,
    tried: Option<Result<EncodedBatch, EtlError>>,
    encoded: Result<EncodedBatch, EtlError>,
)
    requires
        call_ensures(postgres_to_arrow_schema, (table_schema,), Ok::<_, String>(schema)),
        call_ensures(limits::rows_can_be_stored::<R>, (rows, &schema), fit),
        call_ensures(
            deltalake::destination::try_encode_table_rows::<R>,
            (table_schema, rows),
            tried,
        ),
        call_ensures(deltalake::destination::encode_table_rows::<R>, (table_schema, rows), encoded),
    ensures
        tried is Some <==> fit,
        tried matches Some(result) ==> {
            &&& result is Ok <==> encoded is Ok
            &&& (result is Ok && encoded is Ok) ==> {
                &&& result->Ok_0.fields() == encoded->Ok_0.fields()
                &&& result->Ok_0.columns() == encoded->Ok_0.columns()
            }
        },
{
}

/// Rows that can be stored are encoded for the kernel as they are. No rows always can.
pub proof fn kernel_rows_that_can_be_stored_are_encoded<R: Row>(
    table_schema: &TableSchema,
    rows: Vec<R>,
    fit: bool,
    tried: Option<Result<Vec<EncodedBatch>, BatchError>>,
    encoded: Result<Vec<EncodedBatch>, BatchError>,
    tried_rows: Option<Result<Vec<EncodedBatch>, EtlError>>,
)
    requires
        call_ensures(TableRowEncoder::rows_can_be_stored::<R>, (table_schema, &rows), fit),
        call_ensures(TableRowEncoder::try_encode_table_rows::<R>, (table_schema, rows), tried),
        call_ensures(TableRowEncoder::encode_table_rows::<R>, (table_schema, rows), encoded),
        call_ensures(delta::destination::try_encode_rows::<R>, (table_schema, rows), tried_rows),
    ensures
        tried is Some <==> fit || rows@.len() == 0,
        tried_rows is Some <==> fit || rows@.len() == 0,
        tried matches Some(result) ==> {
            &&& result is Ok <==> encoded is Ok
            &&& (result is Ok && encoded is Ok) ==> {
                &&& result->Ok_0@.len() == encoded->Ok_0@.len()
                &&& result->Ok_0@.len() > 0 ==> {
                    &&& result->Ok_0@[0].fields() == encoded->Ok_0@[0].fields()
                    &&& result->Ok_0@[0].columns() == encoded->Ok_0@[0].columns()
                }
            }
        },
        tried_rows matches Some(result) ==> {
            &&& result is Ok <==> encoded is Ok
            &&& (result is Ok && encoded is Ok) ==> {
                &&& result->Ok_0@.len() == encoded->Ok_0@.len()
                &&& result->Ok_0@.len() > 0 ==> {
                    &&& result->Ok_0@[0].fields() == encoded->Ok_0@[0].fields()
                    &&& result->Ok_0@[0].columns() == encoded->Ok_0@[0].columns()
                }
            }
        },
{
}

} // verus!
