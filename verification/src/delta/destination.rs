//! The destination: what is written for the events of tables, and what follows.

use std::collections::HashMap;

use vstd::hash_map::StringHashMap;
use vstd::prelude::*;

use crate::batch::array::EncodedBatch;
use crate::delta::changes;
use crate::delta::changes::TableChange;
use crate::delta::client;
use crate::delta::client::DeltaLakeClient;
use crate::delta::encoding;
use crate::delta::encoding::TableRowEncoder;
use crate::delta::key_set::KeySet;
use crate::deltalake::config::CommitCount;
use crate::deltalake::events;
use crate::deltalake::events::{Change, Marker, RowOp};
use crate::deltalake::opening;
use crate::error;
use crate::error::{EtlError, EtlResult, ErrorKind, require_table_schema};
use crate::text;
use crate::types::schema;
use crate::types::{Event, Row, TableId, TableRow, TableSchema};

verus! {

broadcast use text::take_one_more;

/// The configuration of the destination.
#[derive(Debug, Clone)]
pub struct DeltaDestinationConfig {
    /// Where the tables are stored, such as `s3://bucket/warehouse` or `file:///tmp/delta`.
    pub base_uri: String,
    /// The options of the object store.
    pub storage_options: Option<HashMap<String, String>>,
    /// The columns to partition by, for each table.
    pub partition_columns: Option<HashMap<String, Vec<String>>>,
    /// After how many commits a table is optimized.
    pub optimize_after_commits: Option<CommitCount>,
}

impl Default for DeltaDestinationConfig {
    fn default() -> (config: Self)
        ensures
            config.base_uri@ == "file:///tmp/delta"@,
            config.storage_options is None,
            config.partition_columns is None,
            config.optimize_after_commits is None,
    {
        DeltaDestinationConfig {
            base_uri: "file:///tmp/delta".to_string(),
            storage_options: None,
            partition_columns: None,
            optimize_after_commits: None,
        }
    }
}

/// What is done to a table for its events.
pub struct TablePlan<'a> {
    /// Whether all earlier rows are removed.
    pub truncated: bool,
    /// The rows that are written, by their keys.
    pub upserts: Vec<(String, &'a TableRow)>,
    /// The keys of the rows that are removed.
    pub deletes: KeySet,
}

/// Rows by their keys.
pub open spec fn keyed_rows(rows: Seq<(String, &TableRow)>) -> Seq<(Seq<char>, TableRow)> {
    Seq::new(rows.len(), |i: int| (rows[i].0@, *rows[i].1))
}

/// The place of the row with a key, or the number of rows if there is none.
fn find(rows: &Vec<(String, &TableRow)>, key: &String) -> (at: usize)
    ensures
        at == changes::position(keyed_rows(rows@), key@),
{
    let ghost keyed = keyed_rows(rows@);
    let ghost at = changes::position(keyed, key@) as int;
    let mut i: usize = 0;
    proof {
        changes::position_is_first(keyed, key@);
    }
    while i < rows.len()
        invariant
            i <= rows@.len(),
            keyed == keyed_rows(rows@),
            at == changes::position(keyed, key@),
            i <= at <= keyed.len(),
            at < keyed.len() ==> keyed[at].0 == key@,
            forall|k: int| 0 <= k < at ==> (#[trigger] keyed[k]).0 != key@,
        decreases rows@.len() - i,
    {
        assert(keyed[i as int].0 == rows@[i as int].0@);
        if rows[i].0 == *key {
            return i;
        }
        i += 1;
    }
    i
}

/// Writes the row with the primary key of a row.
fn write_row<'a>(
    upserts: &mut Vec<(String, &'a TableRow)>,
    key: String,
    row: &'a TableRow,
)
    ensures
        keyed_rows(final(upserts)@) == changes::with_row(keyed_rows(old(upserts)@), key@, *row),
{
    let ghost before = keyed_rows(upserts@);
    let ghost view = key@;
    let at: usize = find(upserts, &key);
    proof {
        changes::position_is_first(before, view);
    }
    if at < upserts.len() {
        upserts.set(at, (key, row));
    } else {
        upserts.push((key, row));
    }
    assert(keyed_rows(upserts@) =~= changes::with_row(before, view, *row));
}

/// The changes to a table that are known so far.
struct TableChanges<'a> {
    plan: TablePlan<'a>,
    markers: StringHashMap<Marker>,
}

impl<'a> TableChanges<'a> {
    /// The changes, in the model.
    spec fn model(self) -> TableChange {
        TableChange::Changed {
            truncated: self.plan.truncated,
            upserts: keyed_rows(self.plan.upserts@),
            deletes: self.plan.deletes@,
            markers: self.markers@,
        }
    }

    /// No changes to the rows of a table.
    fn new(truncated: bool) -> (known: Self)
        ensures
            known.model() == changes::unchanged(truncated),
    {
        let known = TableChanges {
            plan: TablePlan { truncated, upserts: Vec::new(), deletes: KeySet::new() },
            markers: StringHashMap::new(),
        };
        assert(keyed_rows(known.plan.upserts@) =~= Seq::empty());
        known
    }

    /// Whether a change comes after all that are known of the row with a key.
    fn is_latest(&self, key: &String, marker: Marker) -> (latest: bool)
        ensures
            latest == changes::is_latest(self.markers@, key@, marker),
    {
        match self.markers.get(key.as_str()) {
            Some(known) => marker.0 > known.0 || (marker.0 == known.0 && marker.1 >= known.1),
            None => true,
        }
    }

    /// Adds a change to the row that has the primary key of a row.
    fn add_change(
        &mut self,
        client: &DeltaLakeClient,
        table_schema: &TableSchema,
        row: &TableRow,
        op: RowOp<'a>,
        marker: Marker,
    ) -> (added: Result<(), String>)
        ensures
            match changes::after_change(
                old(self).plan.truncated,
                keyed_rows(old(self).plan.upserts@),
                old(self).plan.deletes@,
                old(self).markers@,
                *table_schema,
                Change { row: *row, op: events::operation(op), marker },
            ) {
                TableChange::Failed(expected) => added matches Err(message) && message@ == expected,
                changed => added is Ok && final(self).model() == changed,
            },
    {
        let key = match client.extract_primary_key(row, table_schema) {
            Ok(key) => key,
            Err(message) => return Err(message),
        };
        if !self.is_latest(&key, marker) {
            return Ok(());
        }
        self.markers.insert(key.clone(), marker);
        match op {
            RowOp::Upsert(row) => write_row(&mut self.plan.upserts, key, row),
            RowOp::Delete => {
                let ghost before = keyed_rows(self.plan.upserts@);
                let at: usize = find(&self.plan.upserts, &key);
                if at < self.plan.upserts.len() {
                    self.plan.upserts.remove(at);
                }
                assert(keyed_rows(self.plan.upserts@) =~= changes::without_row(before, key@));
                self.plan.deletes.insert(key);
            },
        }
        Ok(())
    }
}

/// What is done to a table for its events. Of the changes to a row the latest one is kept, by
/// where the transaction commits and where the event stands; of changes at the same place the last
/// one is kept. After a truncation nothing counts that came before it.
pub fn process_table_events<'a>(
    client: &DeltaLakeClient,
    table_schema: &TableSchema,
    events: &'a [Event],
) -> (plan: EtlResult<TablePlan<'a>>)
    ensures
        match changes::table_change(*table_schema, events@) {
            TableChange::Failed(message) => plan matches Err(error) && error.is_with(
                ErrorKind::ConversionError,
                "Failed to extract primary key"@,
                message,
            ),
            TableChange::Changed { truncated, upserts, deletes, .. } => plan matches Ok(p) && {
                &&& p.truncated == truncated
                &&& keyed_rows(p.upserts@) == upserts
                &&& p.deletes@ == deletes
            },
        },
{
    let mut known = TableChanges::new(false);
    let mut i: usize = 0;
    assert(events@.take(0) =~= Seq::empty());
    while i < events.len()
        invariant
            i <= events@.len(),
            changes::table_change(*table_schema, events@.take(i as int)) == known.model(),
        decreases events@.len() - i,
    {
        proof {
            assert(events@.take(i as int + 1).drop_last() =~= events@.take(i as int));
        }
        if let Event::Truncate(_) = &events[i] {
            known = TableChanges::new(true);
        } else if let Some((row, op, marker)) = events::change_of(&events[i], false) {
            match known.add_change(client, table_schema, row, op, marker) {
                Ok(()) => {},
                Err(message) => {
                    proof {
                        changes::ended_changes_stay(*table_schema, events@, i as int + 1);
                    }
                    return Err(no_primary_key(message));
                },
            }
        }
        i += 1;
    }
    assert(events@.take(i as int) =~= events@);
    Ok(known.plan)
}

fn no_primary_key(message: String) -> (error: EtlError)
    ensures
        error.is_with(
            ErrorKind::ConversionError,
            "Failed to extract primary key"@,
            message@,
        ),
{
    EtlError::with_detail(ErrorKind::ConversionError, "Failed to extract primary key", message)
}

/// The count of the commits since the last optimization, after one more.
pub open spec fn next_count(count: nat, interval: nat) -> nat {
    if count + 1 >= interval {
        0
    } else {
        count + 1
    }
}

/// The count after so many commits.
pub open spec fn count_after(commits: nat, interval: nat) -> nat
    decreases commits,
{
    if commits == 0 {
        0
    } else {
        next_count(count_after((commits - 1) as nat, interval), interval)
    }
}

/// The count starts again after every interval.
pub proof fn commits_are_counted_in_intervals(commits: nat, interval: nat)
    requires
        interval > 0,
    ensures
        count_after(commits, interval) == commits % interval,
    decreases commits,
{
    if commits > 0 {
        let before = (commits - 1) as nat;
        commits_are_counted_in_intervals(before, interval);
        assert((before + 1) % interval == if before % interval + 1 == interval {
            0
        } else {
            before % interval + 1
        }) by (nonlinear_arith)
            requires
                interval > 0,
                before >= 0,
        ;
    } else {
        assert(0nat % interval == 0) by (nonlinear_arith)
            requires
                interval > 0,
        ;
    }
}

/// The destination. It has a store for the schemas of tables, keeps the tables that are open,
/// and counts their commits.
#[verifier::reject_recursive_types(T)]
pub struct DeltaLakeDestination<S, T> {
    client: DeltaLakeClient,
    store: S,
    config: DeltaDestinationConfig,
    table_cache: StringHashMap<T>,
    commit_counters: StringHashMap<u64>,
}

impl<S, T> DeltaLakeDestination<S, T> {
    /// Whether no count of commits has reached the number of commits to optimize after.
    pub closed spec fn wf(&self) -> bool {
        self.config.optimize_after_commits matches Some(interval) ==> interval.number() > 0
            && forall|path: Seq<char>| #[trigger]
            self.commit_counters@.contains_key(path) ==> self.commit_counters@[path]
                < interval.number()
    }

    /// The store for the schemas of tables.
    pub closed spec fn store_of(&self) -> S {
        self.store
    }

    /// The configuration.
    pub closed spec fn config_of(&self) -> DeltaDestinationConfig {
        self.config
    }

    /// The client.
    pub closed spec fn client_of(&self) -> DeltaLakeClient {
        self.client
    }

    /// The tables that are open, by their paths.
    pub closed spec fn tables(&self) -> Map<Seq<char>, T> {
        self.table_cache@
    }

    /// The number of commits since a table was last optimized.
    pub closed spec fn commits(&self, path: Seq<char>) -> nat {
        if self.commit_counters@.contains_key(path) {
            self.commit_counters@[path] as nat
        } else {
            0
        }
    }

    /// A destination without open tables. Its client has the options of the object store.
    pub fn new(store: S, config: DeltaDestinationConfig) -> (destination: Self)
        ensures
            destination.wf(),
            destination.store_of() == store,
            destination.config_of() == config,
            destination.tables() == Map::<Seq<char>, T>::empty(),
            match (destination.client_of().options(), config.storage_options) {
                (Some(options), Some(configured)) => options@ == configured@,
                (None, None) => true,
                _ => false,
            },
            forall|path: Seq<char>| #[trigger] destination.commits(path) == 0,
    {
        if let Some(interval) = &config.optimize_after_commits {
            let commits: u64 = interval.get();
            assert(commits > 0);
        }
        DeltaLakeDestination {
            client: DeltaLakeClient::new(config.storage_options.clone()),
            store,
            config,
            table_cache: StringHashMap::new(),
            commit_counters: StringHashMap::new(),
        }
    }

    /// The client.
    pub fn client(&self) -> (client: &DeltaLakeClient)
        ensures
            *client == self.client_of(),
    {
        &self.client
    }

    /// The store for the schemas of tables.
    pub fn store(&self) -> (store: &S)
        ensures
            *store == self.store_of(),
    {
        &self.store
    }

    /// The configuration.
    pub fn config(&self) -> (config: &DeltaDestinationConfig)
        ensures
            *config == self.config_of(),
    {
        &self.config
    }

    /// Where a table is stored, if its schema is known.
    pub fn get_table_path(&self, table_id: TableId, table_schema: Option<&TableSchema>) -> (path:
        EtlResult<String>)
        ensures
            match table_schema {
                Some(schema) => path matches Ok(p) && p@ == opening::table_path_text(
                    self.config_of().base_uri@,
                    schema.name.name@,
                ),
                None => path matches Err(error) && error.is_with(
                    ErrorKind::MissingTableSchema,
                    "Table schema not found"@,
                    error::schema_not_found_text(table_id.0),
                ),
            },
    {
        match require_table_schema(table_id, table_schema) {
            Ok(schema) => Ok(
                opening::table_path(self.config.base_uri.as_str(), schema.name.name.as_str()),
            ),
            Err(error) => Err(error),
        }
    }

    /// The open table at a path, if there is one.
    pub fn cached_table(&self, table_path: &str) -> (table: Option<&T>)
        ensures
            match table {
                Some(t) => self.tables().contains_key(table_path@) && *t
                    == self.tables()[table_path@],
                None => !self.tables().contains_key(table_path@),
            },
    {
        self.table_cache.get(table_path)
    }

    /// Keeps a table that was opened or created, or tells why there is none.
    pub fn ensure_table_exists(&mut self, table_path: String, opened: Result<T, String>) -> (result:
        EtlResult<()>)
        requires
            old(self).wf(),
        ensures
            final(self).wf(),
            final(self).store_of() == old(self).store_of(),
            final(self).config_of() == old(self).config_of(),
            final(self).client_of() == old(self).client_of(),
            forall|path: Seq<char>| #[trigger] final(self).commits(path) == old(self).commits(path),
            match opened {
                Ok(table) => result is Ok && final(self).tables() == old(self).tables().insert(
                    table_path@,
                    table,
                ),
                Err(message) => final(self).tables() == old(self).tables() && (result matches Err(
                    error,
                ) && error.is_with(
                    ErrorKind::DestinationError,
                    "Failed to create Delta table"@,
                    "Error creating table at "@ + table_path@ + ": "@ + message@,
                )),
            },
    {
        match opened {
            Ok(table) => {
                self.table_cache.insert(table_path, table);
                Ok(())
            },
            Err(message) => {
                let mut detail = "Error creating table at ".to_string();
                detail.append(table_path.as_str());
                detail.append(": ");
                detail.append(message.as_str());
                Err(
                    EtlError::with_detail(
                        ErrorKind::DestinationError,
                        "Failed to create Delta table",
                        detail,
                    ),
                )
            },
        }
    }

    /// Keeps the table that rows were added to, or tells why they were not.
    pub fn finish_append(
        &mut self,
        table_id: TableId,
        table_path: String,
        appended: Result<T, String>,
    ) -> (result: EtlResult<()>)
        requires
            old(self).wf(),
        ensures
            final(self).wf(),
            final(self).store_of() == old(self).store_of(),
            final(self).config_of() == old(self).config_of(),
            final(self).client_of() == old(self).client_of(),
            forall|path: Seq<char>| #[trigger] final(self).commits(path) == old(self).commits(path),
            match appended {
                Ok(table) => result is Ok && final(self).tables() == old(self).tables().insert(
                    table_path@,
                    table,
                ),
                Err(message) => final(self).tables() == old(self).tables() && (result matches Err(
                    error,
                ) && error.is_with(
                    ErrorKind::DestinationError,
                    "Failed to write to Delta table"@,
                    "Error writing to table for table_id "@ + text::decimal(table_id.0 as nat)
                        + ": "@ + message@,
                )),
            },
    {
        match appended {
            Ok(table) => {
                self.table_cache.insert(table_path, table);
                Ok(())
            },
            Err(message) => {
                let mut detail = "Error writing to table for table_id ".to_string();
                text::push_decimal(&mut detail, table_id.0 as u64);
                detail.append(": ");
                detail.append(message.as_str());
                Err(
                    EtlError::with_detail(
                        ErrorKind::DestinationError,
                        "Failed to write to Delta table",
                        detail,
                    ),
                )
            },
        }
    }

    /// Counts a commit to a table where tables are optimized. Whether the table is due now; its
    /// count starts again then.
    pub fn count_commit(&mut self, table_path: String) -> (due: bool)
        requires
            old(self).wf(),
        ensures
            final(self).wf(),
            final(self).store_of() == old(self).store_of(),
            final(self).config_of() == old(self).config_of(),
            final(self).client_of() == old(self).client_of(),
            final(self).tables() == old(self).tables(),
            match old(self).config_of().optimize_after_commits {
                Some(interval) => {
                    &&& final(self).commits(table_path@) == next_count(
                        old(self).commits(table_path@),
                        interval.number() as nat,
                    )
                    &&& due == (final(self).commits(table_path@) == 0)
                },
                None => !due && final(self).commits(table_path@) == old(self).commits(table_path@),
            },
            forall|path: Seq<char>|
                path != table_path@ ==> #[trigger] final(self).commits(path) == old(self).commits(
                    path,
                ),
    {
        let interval: u64 = match &self.config.optimize_after_commits {
            Some(interval) => interval.get(),
            None => return false,
        };
        let count: u64 = match self.commit_counters.get(table_path.as_str()) {
            Some(count) => *count,
            None => 0,
        };
        let next: u64 = if count + 1 >= interval {
            0
        } else {
            count + 1
        };
        self.commit_counters.insert(table_path, next);
        next == 0
    }
}

/// Rows as batches, or why they do not have the types of the columns.
pub fn encode_rows<R: Row>(table_schema: &TableSchema, table_rows: Vec<R>) -> (batches: EtlResult<
    Vec<EncodedBatch>,
>)
    requires
        table_rows@.len() > 0 ==> encoding::rows_fit(table_schema.column_schemas@, table_rows@),
    ensures
        batches is Ok <==> table_rows@.len() == 0 || encoding::rows_make_batch(
            table_schema.column_schemas@,
            table_rows@,
        ),
        batches matches Ok(b) ==> if table_rows@.len() == 0 {
            b@.len() == 0
        } else {
            &&& b@.len() == 1
            &&& b@[0].fields() == encoding::batch_fields(table_schema.column_schemas@, table_rows@)
            &&& b@[0].columns() == encoding::batch_columns(
                table_schema.column_schemas@,
                table_rows@,
            )
        },
        batches matches Err(error) ==> error::is_encoding_error(error),
{
    match TableRowEncoder::encode_table_rows(table_schema, table_rows) {
        Ok(batches) => Ok(batches),
        Err(error) => {
            Err(error::encoding_error(error.message.as_str()))
        },
    }
}

/// Rows as batches, for any rows: nothing if a row has no cell for a column, or if the texts of a
/// column cannot be counted.
pub fn try_encode_rows<R: Row>(table_schema: &TableSchema, table_rows: Vec<R>) -> (batches: Option<
    EtlResult<Vec<EncodedBatch>>,
>)
    ensures
        batches is Some <==> table_rows@.len() == 0 || encoding::rows_fit(
            table_schema.column_schemas@,
            table_rows@,
        ),
        batches matches Some(result) ==> {
            &&& result is Ok <==> table_rows@.len() == 0 || encoding::rows_make_batch(
                table_schema.column_schemas@,
                table_rows@,
            )
            &&& result matches Ok(b) ==> if table_rows@.len() == 0 {
                b@.len() == 0
            } else {
                &&& b@.len() == 1
                &&& b@[0].fields() == encoding::batch_fields(
                    table_schema.column_schemas@,
                    table_rows@,
                )
                &&& b@[0].columns() == encoding::batch_columns(
                    table_schema.column_schemas@,
                    table_rows@,
                )
            }
            &&& result matches Err(error) ==> error::is_encoding_error(error)
        },
{
    if table_rows.len() > 0 && !TableRowEncoder::rows_can_be_stored(table_schema, &table_rows) {
        return None;
    }
    Some(encode_rows(table_schema, table_rows))
}

/// The rows to add, unless there are none: nothing is done to the table then.
pub fn write_table_rows<R: Row>(table_rows: Vec<R>) -> (added: Option<Vec<R>>)
    ensures
        added == if table_rows@.len() == 0 {
            None
        } else {
            Some(table_rows)
        },
{
    if table_rows.len() == 0 {
        None
    } else {
        Some(table_rows)
    }
}

/// What a transaction does to a table.
pub struct TableTransaction<'a> {
    /// The predicate of the rows that are deleted, if any are.
    pub delete_predicate: Option<String>,
    /// The rows that are added.
    pub rows: Vec<&'a TableRow>,
}

/// What is done to a table in a transaction: the rows with the keys of removed and of written rows
/// are deleted, or all rows where the table is truncated, and the written rows are added.
pub fn execute_delete_append_transaction<'a>(
    client: &DeltaLakeClient,
    table_schema: &TableSchema,
    plan: TablePlan<'a>,
) -> (transaction: TableTransaction<'a>)
    ensures
        ({
            let keys = changes::affected_keys(plan.deletes@, keyed_rows(plan.upserts@));
            if plan.truncated {
                transaction.delete_predicate matches Some(predicate) && predicate@ == "true"@
            } else if keys.len() == 0 {
                transaction.delete_predicate is None
            } else {
                transaction.delete_predicate matches Some(predicate) && predicate@
                    == client::pk_predicate(
                    keys,
                    schema::primary_key_names(table_schema.column_schemas@),
                )
            }
        }),
        transaction.rows@.len() == plan.upserts@.len(),
        forall|i: int|
            0 <= i < plan.upserts@.len() ==> *(#[trigger] transaction.rows@[i])
                == *plan.upserts@[i].1,
{
    let upserts = plan.upserts;
    let mut keys = plan.deletes;
    let ghost keyed = keyed_rows(upserts@);
    let ghost removed = keys@;
    let mut rows: Vec<&'a TableRow> = Vec::new();
    let mut i: usize = 0;
    assert(keyed.take(0) =~= Seq::empty());
    while i < upserts.len()
        invariant
            i <= upserts@.len(),
            keyed == keyed_rows(upserts@),
            keys@ == changes::affected_keys(removed, keyed.take(i as int)),
            rows@.len() == i,
            forall|k: int| 0 <= k < i ==> *(#[trigger] rows@[k]) == *upserts@[k].1,
        decreases upserts@.len() - i,
    {
        proof {
            assert(keyed.take(i as int + 1).drop_last() =~= keyed.take(i as int));
            assert(keyed.take(i as int + 1).last() == keyed[i as int]);
        }
        keys.insert(upserts[i].0.clone());
        rows.push(upserts[i].1);
        i += 1;
    }
    assert(keyed.take(i as int) =~= keyed);
    let delete_predicate = if plan.truncated {
        Some("true".to_string())
    } else if keys.is_empty() {
        None
    } else {
        let columns = DeltaLakeClient::get_primary_key_columns(table_schema);
        Some(client.build_pk_predicate(&keys, columns.as_slice()))
    };
    TableTransaction { delete_predicate, rows }
}

} // verus!
