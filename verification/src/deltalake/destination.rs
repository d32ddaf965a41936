//! The destination: what is written for the events of tables, and what follows.

use std::sync::Arc;

use vstd::prelude::*;

use crate::batch::array::EncodedBatch;
use crate::batch::encoding;
use crate::batch::encoding::{batch_items, rows_fit, rows_make_batch};
use crate::batch::limits;
use crate::deltalake::config::DeltaTableConfig;
use crate::deltalake::events;
use crate::deltalake::events::{
    changes, deleted_keys, have_keys, is_key_error, keys_fit, registry, rows_of, upserted_rows,
};
use crate::deltalake::expr;
use crate::deltalake::expr::{Expr, ExprView, Operator, expr_views};
use crate::deltalake::maintenance::TableMaintenanceState;
use crate::deltalake::opening::DeltaDestinationConfig;
use crate::deltalake::schema::{postgres_arrow_fields, postgres_to_arrow_fields};
use crate::deltalake::util::table_map::TableMap;
use crate::error;
use crate::error::{EtlError, EtlResult, ErrorKind};
use crate::text;
use crate::types::{Event, Row, TableId, TableRow, TableSchema};

verus! {

/// The destination. It has a store for the schemas of tables, keeps the tables that are open,
/// and tracks their maintenance.
pub struct DeltaLakeDestination<S, T, H> {
    store: S,
    config: DeltaDestinationConfig,
    table_cache: TableMap<T>,
    maintenance: TableMap<TableMaintenanceState<H>>,
}

impl<S, T, H> DeltaLakeDestination<S, T, H> {
    /// Whether every open table and every maintenance belongs to one table.
    pub closed spec fn wf(&self) -> bool {
        self.table_cache.wf() && self.maintenance.wf()
    }

    /// The store for the schemas of tables.
    pub closed spec fn store_of(&self) -> S {
        self.store
    }

    /// The configuration.
    pub closed spec fn config_of(&self) -> DeltaDestinationConfig {
        self.config
    }

    /// The tables that are open.
    pub closed spec fn tables(&self) -> Map<u32, T> {
        self.table_cache@
    }

    /// The maintenance of tables.
    pub closed spec fn maintained(&self) -> Map<u32, TableMaintenanceState<H>> {
        self.maintenance@
    }

    /// A destination without open tables.
    pub fn new(store: S, config: DeltaDestinationConfig) -> (destination: Self)
        ensures
            destination.wf(),
            destination.store_of() == store,
            destination.config_of() == config,
            destination.tables() == Map::<u32, T>::empty(),
            destination.maintained() == Map::<u32, TableMaintenanceState<H>>::empty(),
    {
        DeltaLakeDestination {
            store,
            config,
            table_cache: TableMap::new(),
            maintenance: TableMap::new(),
        }
    }

    /// The name of the destination.
    pub fn name() -> (name: &'static str)
        ensures
            name@ == "deltalake"@,
    {
        "deltalake"
    }

    /// The store for the schemas of tables.
    pub fn store(&self) -> (store: &S)
        ensures
            *store == self.store_of(),
    {
        &self.store
    }

    /// The configuration.
    pub fn config(&self) -> (config: &DeltaDestinationConfig)
        ensures
            *config == self.config_of(),
    {
        &self.config
    }

    /// The configuration of a table, or the default configuration if the table has none.
    pub fn config_for_table_name(&self, table_name: &str) -> (config: Arc<DeltaTableConfig>)
        ensures
            if self.config_of().table_config@.contains_key(table_name@) {
                config == self.config_of().table_config@[table_name@]
            } else {
                config.is_default()
            },
    {
        self.config.table_config.config_for_table_name(table_name)
    }

    /// The open table of a number, if there is one.
    pub fn cached_table(&self, table_id: TableId) -> (table: Option<&T>)
        requires
            self.wf(),
        ensures
            match table {
                Some(t) => self.tables().contains_key(table_id.0) && *t == self.tables()[table_id.0],
                None => !self.tables().contains_key(table_id.0),
            },
    {
        self.table_cache.get(table_id)
    }

    /// The open table of a number. Where there is none, it is the given table from then on.
    pub fn table_handle(&mut self, table_id: TableId, table: T) -> (held: &mut T)
        requires
            old(self).wf(),
        ensures
            final(self).wf(),
            *held == if old(self).tables().contains_key(table_id.0) {
                old(self).tables()[table_id.0]
            } else {
                table
            },
            final(self).tables() == old(self).tables().insert(table_id.0, *final(held)),
            final(self).maintained() == old(self).maintained(),
            final(self).config_of() == old(self).config_of(),
            final(self).store_of() == old(self).store_of(),
    {
        self.table_cache.or_insert(table_id, table)
    }

    /// The maintenance of a table. It starts at the given version if there is none yet.
    pub fn maintenance_state_for(&mut self, table_id: TableId, current_version: i64) -> (state:
        &mut TableMaintenanceState<H>)
        requires
            old(self).wf(),
        ensures
            final(self).wf(),
            old(self).maintained().contains_key(table_id.0) ==> *state == old(
                self,
            ).maintained()[table_id.0],
            !old(self).maintained().contains_key(table_id.0) ==> {
                &&& state.inner.last_compacted_version == current_version
                &&& state.inner.last_zordered_version == current_version
                &&& state.inner.compaction_task is None
                &&& state.inner.zorder_task is None
            },
            final(self).maintained() == old(self).maintained().insert(table_id.0, *final(state)),
            final(self).tables() == old(self).tables(),
            final(self).config_of() == old(self).config_of(),
            final(self).store_of() == old(self).store_of(),
    {
        self.maintenance.or_insert(table_id, TableMaintenanceState::new(current_version))
    }
}

/// Whether a table is maintained at all.
pub open spec fn is_maintained(config: DeltaTableConfig) -> bool {
    config.compact_after_commits is Some || config.z_order_after_commits is Some
}

/// Whether the maintenance of a table of a version is to be looked after. A version is never
/// negative.
pub fn maybe_schedule_maintenance(table_version: i64, config: &DeltaTableConfig) -> (schedule: bool)
    requires
        table_version >= 0,
    ensures
        schedule == is_maintained(*config),
{
    config.compact_after_commits.is_some() || config.z_order_after_commits.is_some()
}

/// What is written to a table.
pub enum WritePlan<'a> {
    /// Nothing.
    Nothing,
    /// These rows are added.
    Append(Vec<&'a TableRow>),
    /// The rows of which this predicate is true are deleted.
    Delete(Expr),
    /// These rows are added or replace others.
    Merge {
        /// The rows.
        rows: Vec<&'a TableRow>,
        /// Which other rows are deleted.
        delete_predicate: Option<Expr>,
    },
}

/// Whether one of some predicates is true.
pub open spec fn any_of(predicates: Seq<ExprView>) -> Option<ExprView>
    decreases predicates.len(),
{
    if predicates.len() == 0 {
        None
    } else {
        match any_of(predicates.drop_last()) {
            Some(before) => Some(expr::binary(before, Operator::Or, predicates.last())),
            None => Some(predicates.last()),
        }
    }
}

/// Whether one of some predicates is true. There is nothing to say if there is none.
pub fn combine_predicates(predicates: Vec<Expr>) -> (combined: Option<Expr>)
    ensures
        match (combined, any_of(expr_views(predicates@))) {
            (Some(c), Some(expected)) => c@ == expected,
            (None, None) => true,
            _ => false,
        },
{
    let ghost views = expr_views(predicates@);
    let mut combined: Option<Expr> = None;
    assert(views.take(0) =~= Seq::empty());
    for predicate in it: predicates
        invariant
            views == expr_views(it.seq()),
            match (combined, any_of(views.take(it.index() as int))) {
                (Some(c), Some(expected)) => c@ == expected,
                (None, None) => true,
                _ => false,
            },
    {
        let ghost n = it.index() as int;
        proof {
            assert(views.take(n + 1).drop_last() =~= views.take(n));
            assert(views.take(n + 1).last() == predicate@);
        }
        combined =
        Some(
            match combined {
                None => predicate,
                Some(before) => before.or(predicate),
            },
        );
    }
    assert(views.take(views.len() as int) =~= views);
    combined
}

/// Whether a plan writes rows and deletes the rows with some predicates. It does nothing where
/// there is nothing to do.
pub open spec fn writes(plan: WritePlan<'_>, rows: Seq<TableRow>, predicates: Seq<ExprView>) -> bool {
    if rows.len() > 0 {
        plan matches WritePlan::Merge { rows: merged, delete_predicate } && {
            &&& rows_of(merged@) == rows
            &&& match delete_predicate {
                Some(predicate) => any_of(predicates) == Some(predicate@),
                None => predicates.len() == 0,
            }
        }
    } else if predicates.len() > 0 {
        plan matches WritePlan::Delete(predicate) && any_of(predicates) == Some(predicate@)
    } else {
        plan is Nothing
    }
}

/// Whether a plan adds rows. It does nothing where there are none.
pub open spec fn appends(plan: WritePlan<'_>, rows: Seq<TableRow>) -> bool {
    if rows.len() > 0 {
        plan matches WritePlan::Append(appended) && rows_of(appended@) == rows
    } else {
        plan is Nothing
    }
}

/// There is a predicate exactly if there are predicates.
pub proof fn any_of_some(predicates: Seq<ExprView>)
    ensures
        any_of(predicates) is Some <==> predicates.len() > 0,
    decreases predicates.len(),
{
    if predicates.len() > 0 {
        any_of_some(predicates.drop_last());
    }
}

/// What is written for rows to write and predicates of rows to delete.
pub fn execute_delete_append_transaction_expr<'a>(
    upsert_rows: Vec<&'a TableRow>,
    delete_predicates: Vec<Expr>,
) -> (plan: WritePlan<'a>)
    ensures
        writes(plan, rows_of(upsert_rows@), expr_views(delete_predicates@)),
{
    proof {
        any_of_some(expr_views(delete_predicates@));
    }
    let combined_predicate = combine_predicates(delete_predicates);
    if upsert_rows.len() > 0 {
        return WritePlan::Merge { rows: upsert_rows, delete_predicate: combined_predicate };
    }
    match combined_predicate {
        Some(predicate) => WritePlan::Delete(predicate),
        None => WritePlan::Nothing,
    }
}

/// What is written for rows to add.
pub fn write_table_rows_internal<'a>(table_rows: Vec<&'a TableRow>) -> (plan: WritePlan<'a>)
    ensures
        appends(plan, rows_of(table_rows@)),
{
    if table_rows.len() == 0 {
        WritePlan::Nothing
    } else {
        WritePlan::Append(table_rows)
    }
}

/// Whether a plan writes what events make of a table. Rows are only added to an append-only
/// table.
pub open spec fn writes_events(
    plan: WritePlan<'_>,
    config: DeltaTableConfig,
    table_schema: TableSchema,
    events: Seq<Event>,
) -> bool {
    let entries = registry(table_schema, changes(events, config.append_only));
    if config.append_only {
        appends(plan, upserted_rows(entries))
    } else {
        writes(plan, upserted_rows(entries), deleted_keys(entries))
    }
}

/// What is written for the events of a table.
pub fn process_table_events<'a>(
    config: &DeltaTableConfig,
    table_schema: &TableSchema,
    events: &'a [Event],
) -> (plan: EtlResult<WritePlan<'a>>)
    requires
        keys_fit(*table_schema, changes(events@, config.append_only)),
    ensures
        plan is Ok <==> have_keys(*table_schema, changes(events@, config.append_only)),
        plan matches Ok(p) ==> writes_events(p, *config, *table_schema, events@),
        plan matches Err(error) ==> is_key_error(error, *table_schema),
{
    if config.append_only {
        match events::materialize_events_append_only(events, table_schema) {
            Ok(rows) => Ok(write_table_rows_internal(rows)),
            Err(error) => Err(error),
        }
    } else {
        match events::materialize_events(events, table_schema, false) {
            Ok((delete_predicates, rows)) => Ok(
                execute_delete_append_transaction_expr(rows, delete_predicates),
            ),
            Err(error) => Err(error),
        }
    }
}

/// What is written for any events of a table: nothing is known of it if the primary key of a
/// changed row is not there or cannot be stored.
pub fn try_process_table_events<'a>(
    config: &DeltaTableConfig,
    table_schema: &TableSchema,
    events: &'a [Event],
) -> (plan: Option<EtlResult<WritePlan<'a>>>)
    ensures
        plan is Some <==> keys_fit(*table_schema, changes(events@, config.append_only)),
        plan matches Some(result) ==> {
            &&& result is Ok <==> have_keys(*table_schema, changes(events@, config.append_only))
            &&& result matches Ok(p) ==> writes_events(p, *config, *table_schema, events@)
            &&& result matches Err(error) ==> is_key_error(error, *table_schema)
        },
{
    if events::keys_can_be_stored(events, table_schema, config.append_only) {
        Some(process_table_events(config, table_schema, events))
    } else {
        None
    }
}

/// The schema of the table that events belong to, or the error that it is not known.
pub fn require_schema_of_events<T>(table_id: TableId, table_schema: Option<T>) -> (schema: EtlResult<T>)
    ensures
        schema is Ok <==> table_schema is Some,
        schema matches Ok(s) ==> table_schema == Some(s),
        schema matches Err(error) ==> error.is_with(
            ErrorKind::MissingTableSchema,
            "Table schema not found"@,
            text::decimal(table_id.0 as nat),
        ),
{
    match table_schema {
        Some(schema) => Ok(schema),
        None => Err(
            EtlError::with_detail(
                ErrorKind::MissingTableSchema,
                "Table schema not found",
                text::unsigned_text(table_id.0 as u64),
            ),
        ),
    }
}

/// Rows to add as a batch with the columns of a table.
pub fn encode_table_rows<R: Row>(table_schema: &TableSchema, table_rows: &[R]) -> (batch: EtlResult<
    EncodedBatch,
>)
    requires
        rows_fit(table_rows@, postgres_arrow_fields(table_schema.column_schemas@)),
    ensures
        batch is Ok <==> rows_make_batch(
            table_rows@,
            postgres_arrow_fields(table_schema.column_schemas@),
        ),
        batch matches Ok(b) ==> {
            &&& b.fields() == postgres_arrow_fields(table_schema.column_schemas@)
            &&& b.columns() == batch_items(
                table_rows@,
                postgres_arrow_fields(table_schema.column_schemas@),
            )
        },
        batch matches Err(error) ==> error::is_encoding_error(error),
{
    let schema = postgres_to_arrow_fields(table_schema);
    match encoding::rows_to_record_batch(table_rows, schema) {
        Ok(batch) => Ok(batch),
        Err(error) => {
            Err(error::encoding_error(error.message.as_str()))
        },
    }
}

/// Any rows to add as a batch with the columns of a table: nothing if a row ends before a column
/// of the table, or if a column cannot be stored.
pub fn try_encode_table_rows<R: Row>(table_schema: &TableSchema, table_rows: &[R]) -> (batch: Option<
    EtlResult<EncodedBatch>,
>)
    ensures
        batch is Some <==> rows_fit(
            table_rows@,
            postgres_arrow_fields(table_schema.column_schemas@),
        ),
        batch matches Some(result) ==> {
            &&& result is Ok <==> rows_make_batch(
                table_rows@,
                postgres_arrow_fields(table_schema.column_schemas@),
            )
            &&& result matches Ok(b) ==> {
                &&& b.fields() == postgres_arrow_fields(table_schema.column_schemas@)
                &&& b.columns() == batch_items(
                    table_rows@,
                    postgres_arrow_fields(table_schema.column_schemas@),
                )
            }
            &&& result matches Err(error) ==> error::is_encoding_error(error)
        },
{
    if limits::rows_can_be_stored(table_rows, &postgres_to_arrow_fields(table_schema)) {
        Some(encode_table_rows(table_schema, table_rows))
    } else {
        None
    }
}

/// What was done to a table.
#[derive(Debug, Clone, Copy, PartialEq, Eq, Structural)]
pub enum WriteKind {
    /// Rows were added.
    Append,
    /// Rows were deleted.
    Delete,
    /// Rows were merged.
    Merge,
}

/// How a write ended.
pub enum WriteOutcome {
    /// The table has this version now, if it is known.
    Written(Option<i64>),
    /// It has failed.
    Failed(String),
}

/// What is said of a failed write.
pub open spec fn write_error_text(kind: WriteKind) -> Seq<char> {
    match kind {
        WriteKind::Append => "Failed to write to Delta table"@,
        WriteKind::Delete => "Failed to delete rows from Delta table"@,
        WriteKind::Merge => "Failed to append rows to Delta table"@,
    }
}

/// What is special about a failed write.
pub open spec fn write_error_detail(kind: WriteKind, table: u32, message: Seq<char>) -> Seq<char> {
    (match kind {
        WriteKind::Append => "Error writing to table for table_id "@,
        WriteKind::Delete => "Error deleting from table for table_id "@,
        WriteKind::Merge => "Error appending to table for table_id "@,
    }) + text::decimal(table as nat) + ": "@ + message
}

/// What is special about a table whose version is not known.
pub open spec fn version_error_detail(table: u32) -> Seq<char> {
    "Error getting version from table for table_id "@ + text::decimal(table as nat)
}

/// The version of a table after a write. A version that is not known is an error after a merge,
/// and the first version otherwise.
pub fn finish_write(table_id: TableId, kind: WriteKind, outcome: WriteOutcome) -> (version:
    EtlResult<i64>)
    ensures
        match outcome {
            WriteOutcome::Written(Some(v)) => version == Ok::<i64, EtlError>(v),
            WriteOutcome::Written(None) => if kind == WriteKind::Merge {
                version matches Err(error) && error.is_with(
                    ErrorKind::DestinationError,
                    "Failed to get version from Delta table"@,
                    version_error_detail(table_id.0),
                )
            } else {
                version == Ok::<i64, EtlError>(0i64)
            },
            WriteOutcome::Failed(message) => version matches Err(error) && error.is_with(
                ErrorKind::DestinationError,
                write_error_text(kind),
                write_error_detail(kind, table_id.0, message@),
            ),
        },
{
    match outcome {
        WriteOutcome::Written(Some(version)) => Ok(version),
        WriteOutcome::Written(None) => match kind {
            WriteKind::Merge => {
                let mut detail = "Error getting version from table for table_id ".to_string();
                text::push_decimal(&mut detail, table_id.0 as u64);
                Err(
                    EtlError::with_detail(
                        ErrorKind::DestinationError,
                        "Failed to get version from Delta table",
                        detail,
                    ),
                )
            },
            _ => Ok(0),
        },
        WriteOutcome::Failed(message) => {
            let (description, prefix): (&'static str, &str) = match kind {
                WriteKind::Append => (
                    "Failed to write to Delta table",
                    "Error writing to table for table_id ",
                ),
                WriteKind::Delete => (
                    "Failed to delete rows from Delta table",
                    "Error deleting from table for table_id ",
                ),
                WriteKind::Merge => (
                    "Failed to append rows to Delta table",
                    "Error appending to table for table_id ",
                ),
            };
            let mut detail = prefix.to_string();
            text::push_decimal(&mut detail, table_id.0 as u64);
            detail.append(": ");
            detail.append(message.as_str());
            Err(EtlError::with_detail(ErrorKind::DestinationError, description, detail))
        },
    }
}

} // verus!
