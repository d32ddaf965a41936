//! Destinations do to their tables what they are asked to.

use std::collections::HashMap;

use vstd::prelude::*;

use crate::batch::array::EncodedBatch;
use crate::batch::data_type::Schema;
use crate::batch::encoding::{BatchError, rows_to_record_batch};
use crate::delta;
use crate::delta::client::DeltaLakeClient;
use crate::delta::encoding::TableRowEncoder;
use crate::delta::steps::{CreateStep, TableStep};
use crate::deltalake;
use crate::deltalake::config::DeltaTableConfig;
use crate::deltalake::destination::WritePlan;
use crate::deltalake::events;
use crate::deltalake::events::{materialize_events, materialize_events_append_only};
use crate::deltalake::expr::{Expr, expr_views};
use crate::deltalake::maintenance::TableMaintenanceState;
use crate::deltalake::opening;
use crate::deltalake::opening::{OpenAction, OpenEvent, OpenState, get_or_create_table};
use crate::deltalake::schema::postgres_to_arrow_schema;
use crate::error::EtlError;
use crate::kernel;
use crate::kernel::StructType;
use crate::laws::events::{changes_are_of_events, removed_row, written_row};
use crate::text;
use crate::types::{Event, Row, TableId, TableRow, TableSchema};

verus! {

/// A table is stored below the place of all tables, under its own name.
pub proof fn tables_are_stored_under_their_names(base_uri: &str, table_name: &str, path: String)
    requires
        call_ensures(opening::table_path, (base_uri, table_name), path),
    ensures
        path@.len() == base_uri@.len() + 1 + table_name@.len(),
        path@.take(base_uri@.len() as int) == base_uri@,
        path@[base_uri@.len() as int] == '/',
        path@.skip(base_uri@.len() as int + 1) == table_name@,
{
    reveal_strlit("/");
    assert(path@.take(base_uri@.len() as int) =~= base_uri@);
    assert(path@.skip(base_uri@.len() as int + 1) =~= table_name@);
}

/// A destination stores a table whose schema is known where tables are stored, and no other.
pub proof fn known_tables_have_a_path<S, T>(
    destination: &delta::destination::DeltaLakeDestination<S, T>,
    table_id: TableId,
    table_schema: Option<&TableSchema>,
    result: Result<String, EtlError>,
    base_uri: &str,
    table_name: &str,
    path: String,
)
    requires
        call_ensures(
            delta::destination::DeltaLakeDestination::<S, T>::get_table_path,
            (destination, table_id, table_schema),
            result,
        ),
        base_uri@ == destination.config_of().base_uri@,
        table_schema matches Some(schema) ==> table_name@ == schema.name.name@,
        call_ensures(opening::table_path, (base_uri, table_name), path),
    ensures
        table_schema is Some ==> (result matches Ok(p) && p@ == path@),
        table_schema is None ==> (result matches Err(error) && {
            &&& error.kind is MissingTableSchema
            &&& error.description@ == "Table schema not found"@
            &&& error.detail matches Some(detail) && detail@ == "Schema for table "@
                + text::decimal(table_id.0 as nat) + " not found in store"@
        }),
{
}

/// How far the opening of a table has come, as a number.
pub open spec fn stage(state: OpenState) -> int {
    match state {
        OpenState::Schema => 0,
        OpenState::Path(_) => 1,
        OpenState::Builder(_) => 2,
        OpenState::Build(_) => 3,
        OpenState::Load(_) => 4,
        OpenState::Create => 5,
        OpenState::Ended => 6,
    }
}

/// The stage that an action belongs to.
pub open spec fn action_stage(action: OpenAction) -> int {
    match action {
        OpenAction::ParsePath(_) => 1,
        OpenAction::MakeBuilder => 2,
        OpenAction::Build => 3,
        OpenAction::Load => 4,
        OpenAction::Create(_) => 5,
        OpenAction::Use | OpenAction::Fail(_) => 6,
    }
}

/// The schema of the table that is being opened.
pub open spec fn schema_of(state: OpenState) -> Option<TableSchema> {
    match state {
        OpenState::Path(schema) => Some(schema),
        OpenState::Builder(schema) => Some(schema),
        OpenState::Build(schema) => Some(schema),
        OpenState::Load(schema) => Some(schema),
        _ => None,
    }
}

/// A table is opened in stages, each with its action: none is left out, and the schema is kept
/// until the table is loaded. A table is used once it is loaded or created, and not before. It is
/// created only where loading it has told that there is none. Every other failure ends the opening.
pub proof fn tables_are_opened_in_stages(
    config: &opening::DeltaDestinationConfig,
    table_id: TableId,
    state: OpenState,
    event: OpenEvent,
    next: (OpenState, OpenAction),
)
    requires
        opening::can_happen(state, event),
        call_ensures(get_or_create_table, (config, table_id, state, event), next),
    ensures
        stage(next.0) == action_stage(next.1),
        stage(state) < stage(next.0),
        event is Succeeded && stage(state) < 4 ==> stage(next.0) == stage(state) + 1 && schema_of(
            next.0,
        ) == schema_of(state),
        event matches OpenEvent::SchemaRead(Some(schema)) ==> next.0 == OpenState::Path(schema),
        event == OpenEvent::SchemaRead(None) ==> next.1 is Fail,
        next.1 is Use <==> event is Succeeded && stage(state) >= 4,
        next.1 is Create ==> state is Load && (event matches OpenEvent::Failed { not_a_table, .. }
            && not_a_table),
        event matches OpenEvent::Failed { not_a_table, .. } ==> (next.1 is Fail || (state is Load
            && not_a_table)),
{
}

/// What ends the opening of a table is told, with the stage that failed.
pub proof fn failed_stages_are_told(
    config: &opening::DeltaDestinationConfig,
    table_id: TableId,
    state: OpenState,
    not_a_table: bool,
    message: String,
    next: (OpenState, OpenAction),
)
    requires
        opening::can_happen(state, OpenEvent::Failed { not_a_table, message }),
        call_ensures(
            get_or_create_table,
            (config, table_id, state, OpenEvent::Failed { not_a_table, message }),
            next,
        ),
        !(state is Load && not_a_table),
    ensures
        next.1 matches OpenAction::Fail(error) && {
            &&& error.kind is DestinationError
            &&& error.detail matches Some(detail) && detail@ == message@
            &&& error.description@ == match state {
                OpenState::Path(_) => "Failed to parse table path"@,
                OpenState::Builder(_) => "Failed to create Delta table builder"@,
                OpenState::Build(_) => "Failed to build Delta table"@,
                OpenState::Load(_) => "Failed to load Delta table"@,
                _ => "Failed to create Delta table"@,
            }
        },
{
}

/// The path that is parsed is the one that the table is stored at.
pub proof fn the_path_of_the_table_is_parsed(
    config: &opening::DeltaDestinationConfig,
    table_id: TableId,
    schema: TableSchema,
    next: (OpenState, OpenAction),
    base_uri: &str,
    table_name: &str,
    path: String,
)
    requires
        call_ensures(
            get_or_create_table,
            (config, table_id, OpenState::Schema, OpenEvent::SchemaRead(Some(schema))),
            next,
        ),
        base_uri@ == config.base_uri@,
        table_name@ == schema.name.name@,
        call_ensures(opening::table_path, (base_uri, table_name), path),
    ensures
        next.1 matches OpenAction::ParsePath(parsed) && parsed@ == path@,
{
}

/// A new table has the columns of its schema, and takes only additions where it is configured so.
/// Columns that make no table are an error that names the repeated column.
pub proof fn new_tables_have_the_columns_of_their_schema(
    config: &opening::DeltaDestinationConfig,
    table_id: TableId,
    schema: TableSchema,
    message: String,
    next: (OpenState, OpenAction),
    i: int,
)
    requires
        call_ensures(
            get_or_create_table,
            (
                config,
                table_id,
                OpenState::Load(schema),
                OpenEvent::Failed { not_a_table: true, message },
            ),
            next,
        ),
        0 <= i < schema.column_schemas@.len(),
    ensures
        next.1 is Create <==> forall|a: int, b: int|
            0 <= a < b < schema.column_schemas@.len() ==> (
            #[trigger] schema.column_schemas@[a]).name@ != (
            #[trigger] schema.column_schemas@[b]).name@,
        next.1 matches OpenAction::Create(creation) ==> {
            &&& creation.columns@.len() == schema.column_schemas@.len()
            &&& creation.columns@[i].name@ == schema.column_schemas@[i].name@
            &&& creation.columns@[i].nullable == schema.column_schemas@[i].nullable
            &&& config.table_config@.contains_key(schema.name.name@) ==> creation.append_only
                == config.table_config@[schema.name.name@].append_only
            &&& !config.table_config@.contains_key(schema.name.name@) ==> !creation.append_only
        },
        !(next.1 is Create) ==> (next.1 matches OpenAction::Fail(error) && {
            &&& error.kind is ConversionError
            &&& error.description@ == "Failed to convert table schema to Delta schema"@
            &&& error.detail is Some
        }),
{
    if let OpenAction::Create(creation) = next.1 {
        let views = kernel::field_views(creation.columns@);
        assert(deltalake::schema::is_delta_field(views[i], schema.column_schemas@[i]));
        assert(views[i] == creation.columns@[i]@);
    }
}

/// A table that was opened is there from then on, and every other table stays as it was. One that
/// could not be opened changes nothing and is told.
pub proof fn opened_tables_are_kept<S, T>(
    state: &mut delta::destination::DeltaLakeDestination<S, T>,
    after: delta::destination::DeltaLakeDestination<S, T>,
    table_path: String,
    opened: Result<T, String>,
    result: Result<(), EtlError>,
    other: Seq<char>,
)
    requires
        after == *final(state),
        call_ensures(
            delta::destination::DeltaLakeDestination::<S, T>::ensure_table_exists,
            (state, table_path, opened),
            result,
        ),
    ensures
        result is Ok <==> opened is Ok,
        opened matches Ok(table) ==> after.tables().contains_key(table_path@)
            && after.tables()[table_path@] == table,
        other != table_path@ || opened is Err ==> {
            &&& after.tables().contains_key(other) <==> old(state).tables().contains_key(other)
            &&& after.tables().contains_key(other) ==> after.tables()[other] == old(
                state,
            ).tables()[other]
        },
        after.commits(other) == old(state).commits(other),
        after.config_of() == old(state).config_of(),
        opened matches Err(message) ==> (result matches Err(error) && {
            &&& error.kind is DestinationError
            &&& error.description@ == "Failed to create Delta table"@
            &&& error.detail matches Some(detail) && detail@ == "Error creating table at "@
                + table_path@ + ": "@ + message@
        }),
{
}

/// A table to which rows were added is the open one from then on, and every other table stays as it
/// was. An addition that failed changes nothing and is told.
pub proof fn appended_tables_are_kept<S, T>(
    state: &mut delta::destination::DeltaLakeDestination<S, T>,
    after: delta::destination::DeltaLakeDestination<S, T>,
    table_id: TableId,
    table_path: String,
    appended: Result<T, String>,
    result: Result<(), EtlError>,
    other: Seq<char>,
)
    requires
        after == *final(state),
        call_ensures(
            delta::destination::DeltaLakeDestination::<S, T>::finish_append,
            (state, table_id, table_path, appended),
            result,
        ),
    ensures
        result is Ok <==> appended is Ok,
        appended matches Ok(table) ==> after.tables().contains_key(table_path@)
            && after.tables()[table_path@] == table,
        other != table_path@ || appended is Err ==> {
            &&& after.tables().contains_key(other) <==> old(state).tables().contains_key(other)
            &&& after.tables().contains_key(other) ==> after.tables()[other] == old(
                state,
            ).tables()[other]
        },
        after.commits(other) == old(state).commits(other),
        after.config_of() == old(state).config_of(),
        appended matches Err(message) ==> (result matches Err(error) && {
            &&& error.kind is DestinationError
            &&& error.description@ == "Failed to write to Delta table"@
            &&& error.detail matches Some(detail) && detail@
                == "Error writing to table for table_id "@ + text::decimal(table_id.0 as nat)
                + ": "@ + message@
        }),
{
}

/// Commits are counted for each table: a table is due when as many have been counted as it is
/// optimized after, and the count starts again then. Without such a number no table is ever due.
pub proof fn tables_are_due_after_their_commits<S, T>(
    state: &mut delta::destination::DeltaLakeDestination<S, T>,
    after: delta::destination::DeltaLakeDestination<S, T>,
    table_path: String,
    due: bool,
    other: Seq<char>,
)
    requires
        after == *final(state),
        call_ensures(
            delta::destination::DeltaLakeDestination::<S, T>::count_commit,
            (state, table_path),
            due,
        ),
    ensures
        old(state).config_of().optimize_after_commits is None ==> !due && after.commits(table_path@)
            == old(state).commits(table_path@),
        old(state).config_of().optimize_after_commits matches Some(interval) ==> {
            &&& due <==> old(state).commits(table_path@) + 1 >= interval.number()
            &&& due ==> after.commits(table_path@) == 0
            &&& !due ==> after.commits(table_path@) == old(state).commits(table_path@) + 1
        },
        other != table_path@ ==> after.commits(other) == old(state).commits(other),
        after.tables() == old(state).tables(),
        after.config_of() == old(state).config_of(),
{
}

/// A new destination knows no table, has counted no commit, and is configured as it was told.
pub proof fn new_destinations_know_no_table<S, T>(
    store: S,
    config: delta::destination::DeltaDestinationConfig,
    destination: delta::destination::DeltaLakeDestination<S, T>,
    path: Seq<char>,
)
    requires
        call_ensures(
            delta::destination::DeltaLakeDestination::<S, T>::new,
            (store, config),
            destination,
        ),
    ensures
        destination.store_of() == store,
        destination.config_of() == config,
        !destination.tables().contains_key(path),
        destination.commits(path) == 0,
        config.storage_options is Some <==> destination.client_of().options() is Some,
        config.storage_options matches Some(options) ==> destination.client_of().options()->0@
            == options@,
{
}

/// A client hands on the options that it was made with.
pub proof fn clients_keep_their_options(
    options: Option<HashMap<String, String>>,
    client: DeltaLakeClient,
    handed: &Option<HashMap<String, String>>,
)
    requires
        call_ensures(DeltaLakeClient::new, (options,), client),
        call_ensures(DeltaLakeClient::storage_options, (&client,), handed),
    ensures
        *handed == options,
{
}

/// What an operation deletes.
pub open spec fn deleted_by(step: Option<TableStep>) -> Option<Seq<char>> {
    match step {
        Some(TableStep::Delete(predicate)) => Some(predicate@),
        Some(TableStep::DeleteAndAppend(predicate, _)) => Some(predicate@),
        _ => None,
    }
}

/// What an operation adds.
pub open spec fn added_by(step: Option<TableStep>) -> Seq<EncodedBatch> {
    match step {
        Some(TableStep::Append(batches)) => batches@,
        Some(TableStep::DeleteAndAppend(_, batches)) => batches@,
        _ => Seq::empty(),
    }
}

/// One operation deletes the rows of the predicate that is given, and adds all batches in order.
/// There is no operation exactly if there is nothing to do.
pub proof fn operations_delete_and_add_what_is_asked(
    client: &DeltaLakeClient,
    delete_predicate: Option<&str>,
    batches: Vec<EncodedBatch>,
    id: Option<&str>,
    step: Option<TableStep>,
)
    requires
        call_ensures(
            DeltaLakeClient::delete_and_append_transaction,
            (client, delete_predicate, batches, id),
            step,
        ),
    ensures
        delete_predicate matches Some(predicate) ==> deleted_by(step) == Some(predicate@),
        delete_predicate is None ==> deleted_by(step) is None,
        added_by(step) == batches@,
        step is None <==> delete_predicate is None && batches@.len() == 0,
{
    assert(added_by(step) =~= batches@);
}

/// A deletion deletes and adds nothing, an addition adds and deletes nothing, and a truncation
/// deletes every row.
pub proof fn single_operations_do_one_thing(
    client: &DeltaLakeClient,
    predicate: &str,
    deletion: TableStep,
    truncation: TableStep,
    batches: Vec<EncodedBatch>,
    addition: Option<TableStep>,
)
    requires
        call_ensures(DeltaLakeClient::delete_rows_where, (client, predicate), deletion),
        call_ensures(DeltaLakeClient::truncate_table, (client,), truncation),
        call_ensures(DeltaLakeClient::append_to_table, (client, batches), addition),
    ensures
        deleted_by(Some(deletion)) == Some(predicate@),
        added_by(Some(deletion)).len() == 0,
        deleted_by(Some(truncation)) == Some("true"@),
        added_by(Some(truncation)).len() == 0,
        deleted_by(addition) is None,
        added_by(addition) == batches@,
        addition is None <==> batches@.len() == 0,
{
    assert(added_by(addition) =~= batches@);
}

/// A table that could be opened is used, and one that could not is created with the columns that
/// its schema has in a Delta table.
pub proof fn missing_tables_are_created(
    client: &DeltaLakeClient,
    opened: bool,
    table_schema: &TableSchema,
    step: CreateStep,
    columns: StructType,
)
    requires
        call_ensures(
            DeltaLakeClient::create_table_if_missing,
            (client, opened, table_schema),
            step,
        ),
        call_ensures(delta::schema::postgres_to_delta_schema, (table_schema,), columns),
    ensures
        opened <==> step is Use,
        step matches CreateStep::Create(created) ==> {
            &&& created@.len() == columns@.len()
            &&& forall|i: int| 0 <= i < created@.len() ==> (#[trigger] created@[i])@ == columns@[i]
        },
{
    if let CreateStep::Create(created) = step {
        let views = kernel::field_views(created@);
        assert(views == columns@);
        assert forall|i: int| 0 <= i < created@.len() implies (#[trigger] created@[i])@
            == columns@[i] by {
            assert(views[i] == created@[i]@);
        }
    }
}

/// Rows are encoded for a table as its columns are: as the encoder encodes them, and an error tells
/// what Arrow says of rows that make no batch.
pub proof fn rows_are_encoded_for_the_kernel<R: Row>(
    table_schema: &TableSchema,
    table_rows: Vec<R>,
    encoded: Result<Vec<EncodedBatch>, BatchError>,
    result: Result<Vec<EncodedBatch>, EtlError>,
)
    requires
        call_ensures(
            TableRowEncoder::encode_table_rows::<R>,
            (table_schema, table_rows),
            encoded,
        ),
        call_ensures(delta::destination::encode_rows::<R>, (table_schema, table_rows), result),
    ensures
        encoded is Ok <==> result is Ok,
        (encoded is Ok && result is Ok) ==> {
            &&& encoded->Ok_0@.len() == result->Ok_0@.len()
            &&& encoded->Ok_0@.len() > 0 ==> {
                &&& encoded->Ok_0@[0].fields() == result->Ok_0@[0].fields()
                &&& encoded->Ok_0@[0].columns() == result->Ok_0@[0].columns()
            }
        },
        result matches Err(error) ==> {
            &&& error.kind is ConversionError
            &&& error.description@ == "Failed to encode table rows"@
            &&& error.detail matches Some(detail) && "Error converting to Arrow: "@.is_prefix_of(
                detail@,
            )
        },
{
}

/// Rows are encoded for a table with the Arrow columns of its schema.
pub proof fn rows_are_encoded_with_the_columns_of_the_table<R: Row>(
    table_schema: &TableSchema,
    table_rows: &[R],
    schema: Schema,
    encoded: Result<EncodedBatch, BatchError>,
    result: Result<EncodedBatch, EtlError>,
)
    requires
        call_ensures(postgres_to_arrow_schema, (table_schema,), Ok::<_, String>(schema)),
        call_ensures(rows_to_record_batch::<R>, (table_rows, schema), encoded),
        call_ensures(
            deltalake::destination::encode_table_rows::<R>,
            (table_schema, table_rows),
            result,
        ),
    ensures
        encoded is Ok <==> result is Ok,
        (encoded is Ok && result is Ok) ==> {
            &&& encoded->Ok_0.fields() == result->Ok_0.fields()
            &&& encoded->Ok_0.columns() == result->Ok_0.columns()
        },
        result matches Err(error) ==> {
            &&& error.kind is ConversionError
            &&& error.description@ == "Failed to encode table rows"@
            &&& error.detail matches Some(detail) && "Error converting to Arrow: "@.is_prefix_of(
                detail@,
            )
        },
{
}

/// To a table that takes only additions the rows are added that its insertions write, and nothing
/// is deleted. To any other table all rows are written and all predicates are deleted by that its
/// events come to.
pub proof fn tables_get_what_their_events_come_to(
    config: &DeltaTableConfig,
    table_schema: &TableSchema,
    events: &[Event],
    plan: WritePlan<'_>,
    delete_predicates: Vec<Expr>,
    upsert_rows: Vec<&TableRow>,
)
    requires
        call_ensures(
            deltalake::destination::process_table_events,
            (config, table_schema, events),
            Ok::<_, EtlError>(plan),
        ),
        call_ensures(
            materialize_events,
            (events, table_schema, config.append_only),
            Ok::<_, EtlError>((delete_predicates, upsert_rows)),
        ),
    ensures
        config.append_only ==> match plan {
            WritePlan::Nothing => upsert_rows@.len() == 0,
            WritePlan::Append(rows) => rows@.len() > 0 && events::rows_of(rows@) == events::rows_of(
                upsert_rows@,
            ),
            _ => false,
        },
        !config.append_only ==> match plan {
            WritePlan::Nothing => upsert_rows@.len() == 0 && delete_predicates@.len() == 0,
            WritePlan::Append(_) => false,
            WritePlan::Delete(_) => upsert_rows@.len() == 0 && delete_predicates@.len() > 0,
            WritePlan::Merge { rows, delete_predicate } => {
                &&& rows@.len() > 0
                &&& events::rows_of(rows@) == events::rows_of(upsert_rows@)
                &&& delete_predicate is Some <==> delete_predicates@.len() > 0
            },
        },
{
    deltalake::destination::any_of_some(expr_views(delete_predicates@));
    assert(events::rows_of(upsert_rows@).len() == upsert_rows@.len());
    assert(expr_views(delete_predicates@).len() == delete_predicates@.len());
    match plan {
        WritePlan::Append(rows) => {
            assert(events::rows_of(rows@).len() == rows@.len());
        },
        WritePlan::Merge { rows, delete_predicate } => {
            assert(events::rows_of(rows@).len() == rows@.len());
        },
        _ => {},
    }
}

/// Events of a table that takes only additions come to the rows that they come to otherwise, and to
/// no deletion: an update and a deletion are not among them.
pub proof fn additions_are_events_like_others(
    table_schema: &TableSchema,
    events: &[Event],
    rows: Vec<&TableRow>,
    delete_predicates: Vec<Expr>,
    upsert_rows: Vec<&TableRow>,
)
    requires
        call_ensures(
            materialize_events_append_only,
            (events, table_schema),
            Ok::<_, EtlError>(rows),
        ),
        call_ensures(
            materialize_events,
            (events, table_schema, true),
            Ok::<_, EtlError>((delete_predicates, upsert_rows)),
        ),
    ensures
        events::rows_of(rows@) == events::rows_of(upsert_rows@),
        delete_predicates@.len() == 0,
{
    additions_are_never_deletions(*table_schema, events@);
    assert(expr_views(delete_predicates@).len() == delete_predicates@.len());
}

proof fn additions_are_never_deletions(table_schema: TableSchema, events: Seq<Event>)
    ensures
        events::deleted_keys(
            events::registry(table_schema, events::changes(events, true)),
        ).len() == 0,
{
    let all = events::changes(events, true);
    let entries = events::registry(table_schema, all);
    changes_are_additions(events);
    assert forall|e: int| 0 <= e < entries.len() implies (#[trigger] entries[e]).op is Upsert by {
        events::kept_changes_were_made(table_schema, all, e);
        let w = choose|w: int|
            0 <= w < all.len() && events::keeps(table_schema, entries[e], #[trigger] all[w]);
        assert(all[w].op is Upsert);
    }
    no_deletions_have_no_keys(entries);
}

proof fn changes_are_additions(events: Seq<Event>)
    ensures
        forall|i: int|
            0 <= i < events::changes(events, true).len() ==> (
            #[trigger] events::changes(events, true)[i]).op is Upsert,
    decreases events.len(),
{
    if events.len() > 0 {
        changes_are_additions(events.drop_last());
        let before = events::changes(events.drop_last(), true);
        let all = events::changes(events, true);
        assert forall|i: int| 0 <= i < all.len() implies (#[trigger] all[i]).op is Upsert by {
            if i < before.len() {
                assert(all[i] == before[i]);
            }
        }
    }
}

proof fn no_deletions_have_no_keys(entries: Seq<events::Entry>)
    requires
        forall|e: int| 0 <= e < entries.len() ==> (#[trigger] entries[e]).op is Upsert,
    ensures
        events::deleted_keys(entries).len() == 0,
    decreases entries.len(),
{
    if entries.len() > 0 {
        let last = entries.len() - 1;
        assert(entries[last].op is Upsert);
        no_deletions_have_no_keys(entries.drop_last());
    }
}

/// Events that change a row of a table without a primary key are refused with the name of the
/// table. Events that change no row are taken for every table.
pub proof fn changes_need_a_primary_key(
    table_schema: &TableSchema,
    events: &[Event],
    append_only: bool,
    result: Result<(Vec<Expr>, Vec<&TableRow>), EtlError>,
    at: int,
)
    requires
        call_ensures(materialize_events, (events, table_schema, append_only), result),
        forall|i: int|
            0 <= i < table_schema.column_schemas@.len() ==> !(
            #[trigger] table_schema.column_schemas@[i]).primary,
        0 <= at < events@.len(),
        written_row(events@[at], append_only) is Some || removed_row(events@[at], append_only) is Some,
    ensures
        result matches Err(error) && {
            &&& error.kind is MissingTableSchema
            &&& error.description@ == "Table has no primary key columns"@
            &&& error.detail matches Some(detail) && detail@ == table_schema.name.schema@ + seq!['.']
                + table_schema.name.name@
        },
{
    let all = events::changes(events@, append_only);
    let k = events::changes(events@.take(at), append_only).len() as int;
    changes_are_of_events(events@, append_only, at);
    assert(!events::has_key(*table_schema, all[k]));
}

/// Events of a table with a primary key are refused only for a value that is missing in it, or that
/// it cannot hold.
pub proof fn changes_need_the_values_of_their_key(
    table_schema: &TableSchema,
    events: &[Event],
    append_only: bool,
    result: Result<(Vec<Expr>, Vec<&TableRow>), EtlError>,
    column: int,
)
    requires
        call_ensures(materialize_events, (events, table_schema, append_only), result),
        0 <= column < table_schema.column_schemas@.len(),
        table_schema.column_schemas@[column].primary,
        result is Err,
    ensures
        result matches Err(error) && {
            &&& error.kind is ConversionError
            &&& error.description@ == "Failed to convert row to Arrow array"@
            &&& error.detail is Some
        },
{
    assert(deltalake::expr::has_primary_key(table_schema.column_schemas@));
}

/// Nothing is written for events that are refused, and they are refused for what is wrong with
/// them.
pub proof fn refused_events_are_not_written(
    config: &DeltaTableConfig,
    table_schema: &TableSchema,
    events: &[Event],
    plan: Result<WritePlan<'_>, EtlError>,
    materialized: Result<(Vec<Expr>, Vec<&TableRow>), EtlError>,
    added: Result<Vec<&TableRow>, EtlError>,
)
    requires
        call_ensures(
            deltalake::destination::process_table_events,
            (config, table_schema, events),
            plan,
        ),
        call_ensures(
            materialize_events,
            (events, table_schema, config.append_only),
            materialized,
        ),
        call_ensures(materialize_events_append_only, (events, table_schema), added),
    ensures
        plan is Err <==> materialized is Err,
        plan matches Err(error) ==> {
            &&& error.kind == materialized->Err_0.kind
            &&& error.description@ == materialized->Err_0.description@
            &&& error.detail is Some <==> materialized->Err_0.detail is Some
        },
        config.append_only ==> (plan is Err <==> added is Err),
        config.append_only && added is Err ==> {
            &&& added->Err_0.kind == materialized->Err_0.kind
            &&& added->Err_0.description@ == materialized->Err_0.description@
        },
{
}

/// A new destination knows no table and maintains none.
pub proof fn new_deltalake_destinations_know_no_table<S, T, H>(
    store: S,
    config: opening::DeltaDestinationConfig,
    destination: deltalake::destination::DeltaLakeDestination<S, T, H>,
    table: u32,
)
    requires
        call_ensures(
            deltalake::destination::DeltaLakeDestination::<S, T, H>::new,
            (store, config),
            destination,
        ),
    ensures
        destination.store_of() == store,
        destination.config_of() == config,
        !destination.tables().contains_key(table),
        !destination.maintained().contains_key(table),
{
}

/// The maintenance of a table starts at the version that the table has, and with no task. One that
/// has started goes on.
pub proof fn maintenance_starts_at_the_version_of_the_table<H>(
    current_version: i64,
    state: TableMaintenanceState<H>,
)
    requires
        call_ensures(TableMaintenanceState::<H>::new, (current_version,), state),
    ensures
        state.inner.last_compacted_version == current_version,
        state.inner.last_zordered_version == current_version,
        state.inner.compaction_task is None,
        state.inner.zorder_task is None,
{
}

} // verus!
