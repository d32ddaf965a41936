//! How a Delta table is opened, or created where there is none.

use std::collections::HashMap;

use vstd::prelude::*;

use crate::deltalake::config::TableConfigs;
use crate::deltalake::schema::{
    are_delta_fields, column_names_differ, is_repeated_name, postgres_to_delta_schema,
};
use crate::error::{EtlError, ErrorKind, require_table_schema, schema_not_found_text};
use crate::kernel;
use crate::kernel::StructField;
use crate::types::{TableId, TableSchema};

verus! {

/// The configuration of the destination.
pub struct DeltaDestinationConfig {
    /// Where the tables are stored, such as `s3://bucket/warehouse` or `file:///tmp/delta`.
    pub base_uri: String,
    /// The options of the object store.
    pub storage_options: Option<HashMap<String, String>>,
    /// The configurations of the tables.
    pub table_config: TableConfigs,
}

/// Where a table is stored: under its name, below the place of all tables.
pub open spec fn table_path_text(base_uri: Seq<char>, table_name: Seq<char>) -> Seq<char> {
    base_uri + "/"@ + table_name
}

/// Where a table is stored.
pub fn table_path(base_uri: &str, table_name: &str) -> (path: String)
    ensures
        path@ == table_path_text(base_uri@, table_name@),
{
    let mut path = base_uri.to_string();
    path.append("/");
    path.append(table_name);
    path
}

/// How far the opening of a table has come.
pub enum OpenState {
    /// The schema of the table is being read.
    Schema,
    /// The path of the table is being parsed.
    Path(TableSchema),
    /// The builder of the table is being made.
    Builder(TableSchema),
    /// The table is being built.
    Build(TableSchema),
    /// The table is being loaded.
    Load(TableSchema),
    /// The table is being created.
    Create,
    /// The table is open, or cannot be opened.
    Ended,
}

/// What happened while a table was opened.
pub enum OpenEvent {
    /// The schema was read, if there is one.
    SchemaRead(Option<TableSchema>),
    /// The last action was a success.
    Succeeded,
    /// The last action has failed.
    Failed {
        /// Whether it failed because there is no table.
        not_a_table: bool,
        /// What went wrong.
        message: String,
    },
}

/// What a new table is created with.
pub struct TableCreation {
    /// The columns.
    pub columns: Vec<StructField>,
    /// Whether rows are only ever added.
    pub append_only: bool,
}

/// What is to be done next to open a table.
pub enum OpenAction {
    /// Parse this path.
    ParsePath(String),
    /// Make a builder for the path, with the options of the object store.
    MakeBuilder,
    /// Build the table.
    Build,
    /// Load the table.
    Load,
    /// Create the table.
    Create(TableCreation),
    /// Use the table.
    Use,
    /// Give up.
    Fail(EtlError),
}

/// Whether an event can happen in a state.
pub open spec fn can_happen(state: OpenState, event: OpenEvent) -> bool {
    &&& !(state is Ended)
    &&& state is Schema <==> event is SchemaRead
}

/// Whether an action gives up with an error of the destination.
pub open spec fn fails_with(action: OpenAction, description: Seq<char>, message: String) -> bool {
    action matches OpenAction::Fail(error) && error.is_with(
        ErrorKind::DestinationError,
        description,
        message@,
    )
}

/// Whether an action creates a table with the columns of a schema, or gives up because two of
/// them have the same name.
pub open spec fn creates(
    state: OpenState,
    action: OpenAction,
    schema: TableSchema,
    configs: TableConfigs,
) -> bool {
    if column_names_differ(schema.column_schemas@) {
        &&& state is Create
        &&& action matches OpenAction::Create(creation) && {
            &&& are_delta_fields(kernel::field_views(creation.columns@), schema.column_schemas@)
            &&& creation.append_only == (configs@.contains_key(schema.name.name@)
                && configs@[schema.name.name@].append_only)
        }
    } else {
        &&& state is Ended
        &&& action matches OpenAction::Fail(error) && error.is(
            ErrorKind::ConversionError,
            "Failed to convert table schema to Delta schema"@,
        ) && (error.detail matches Some(name) && is_repeated_name(schema.column_schemas@, name@))
    }
}

fn failed(description: &'static str, message: String) -> (next: (OpenState, OpenAction))
    ensures
        next.0 is Ended,
        fails_with(next.1, description@, message),
{
    (
        OpenState::Ended,
        OpenAction::Fail(
            EtlError::with_detail(ErrorKind::DestinationError, description, message),
        ),
    )
}

fn create(config: &DeltaDestinationConfig, table_schema: &TableSchema) -> (next: (
    OpenState,
    OpenAction,
))
    ensures
        creates(next.0, next.1, *table_schema, config.table_config),
{
    match postgres_to_delta_schema(table_schema) {
        Ok(delta_schema) => {
            let table_config = config.table_config.config_for_table_name(
                table_schema.name.name.as_str(),
            );
            let append_only = table_config.append_only;
            let columns = delta_schema.into_fields();
            (OpenState::Create, OpenAction::Create(TableCreation { columns, append_only }))
        },
        Err(name) => (
            OpenState::Ended,
            OpenAction::Fail(
                EtlError::with_detail(
                    ErrorKind::ConversionError,
                    "Failed to convert table schema to Delta schema",
                    name,
                ),
            ),
        ),
    }
}

/// What follows an event while a table is opened. Its schema is read, its path is parsed, a
/// builder is made, and the table is built and loaded. Only if there is no table it is created,
/// with the columns of the schema.
pub fn get_or_create_table(
    config: &DeltaDestinationConfig,
    table_id: TableId,
    state: OpenState,
    event: OpenEvent,
) -> (next: (OpenState, OpenAction))
    requires
        can_happen(state, event),
    ensures
        match (state, event) {
            (OpenState::Schema, OpenEvent::SchemaRead(Some(schema))) => {
                &&& next.0 == OpenState::Path(schema)
                &&& next.1 matches OpenAction::ParsePath(path) && path@ == table_path_text(
                    config.base_uri@,
                    schema.name.name@,
                )
            },
            (OpenState::Schema, OpenEvent::SchemaRead(None)) => {
                &&& next.0 is Ended
                &&& next.1 matches OpenAction::Fail(error) && error.is_with(
                    ErrorKind::MissingTableSchema,
                    "Table schema not found"@,
                    schema_not_found_text(table_id.0),
                )
            },
            (OpenState::Path(schema), OpenEvent::Succeeded) => next == (
                OpenState::Builder(schema),
                OpenAction::MakeBuilder,
            ),
            (OpenState::Builder(schema), OpenEvent::Succeeded) => next == (
                OpenState::Build(schema),
                OpenAction::Build,
            ),
            (OpenState::Build(schema), OpenEvent::Succeeded) => next == (
                OpenState::Load(schema),
                OpenAction::Load,
            ),
            (OpenState::Load(_), OpenEvent::Succeeded) | (
                OpenState::Create,
                OpenEvent::Succeeded,
            ) => next == (OpenState::Ended, OpenAction::Use),
            (OpenState::Path(_), OpenEvent::Failed { message, .. }) => next.0 is Ended
                && fails_with(next.1, "Failed to parse table path"@, message),
            (OpenState::Builder(_), OpenEvent::Failed { message, .. }) => next.0 is Ended
                && fails_with(next.1, "Failed to create Delta table builder"@, message),
            (OpenState::Build(_), OpenEvent::Failed { message, .. }) => next.0 is Ended
                && fails_with(next.1, "Failed to build Delta table"@, message),
            (OpenState::Load(schema), OpenEvent::Failed { not_a_table, message }) => if not_a_table {
                creates(next.0, next.1, schema, config.table_config)
            } else {
                next.0 is Ended && fails_with(next.1, "Failed to load Delta table"@, message)
            },
            (OpenState::Create, OpenEvent::Failed { message, .. }) => next.0 is Ended
                && fails_with(next.1, "Failed to create Delta table"@, message),
            _ => true,
        },
{
    match (state, event) {
        (OpenState::Schema, OpenEvent::SchemaRead(table_schema)) => {
            match require_table_schema(table_id, table_schema) {
                Ok(schema) => {
                    let path = table_path(config.base_uri.as_str(), schema.name.name.as_str());
                    (OpenState::Path(schema), OpenAction::ParsePath(path))
                },
                Err(error) => (OpenState::Ended, OpenAction::Fail(error)),
            }
        },
        (OpenState::Path(schema), OpenEvent::Succeeded) => (
            OpenState::Builder(schema),
            OpenAction::MakeBuilder,
        ),
        (OpenState::Builder(schema), OpenEvent::Succeeded) => (
            OpenState::Build(schema),
            OpenAction::Build,
        ),
        (OpenState::Build(schema), OpenEvent::Succeeded) => (
            OpenState::Load(schema),
            OpenAction::Load,
        ),
        (OpenState::Path(_), OpenEvent::Failed { message, .. }) => failed(
            "Failed to parse table path",
            message,
        ),
        (OpenState::Builder(_), OpenEvent::Failed { message, .. }) => failed(
            "Failed to create Delta table builder",
            message,
        ),
        (OpenState::Build(_), OpenEvent::Failed { message, .. }) => failed(
            "Failed to build Delta table",
            message,
        ),
        (OpenState::Load(schema), OpenEvent::Failed { not_a_table, message }) => {
            if not_a_table {
                create(config, &schema)
            } else {
                failed("Failed to load Delta table", message)
            }
        },
        (OpenState::Create, OpenEvent::Failed { message, .. }) => failed(
            "Failed to create Delta table",
            message,
        ),
        _ => (OpenState::Ended, OpenAction::Use),
    }
}

/// Where tables with different names are stored differs.
pub proof fn table_paths_differ(base_uri: Seq<char>, left: Seq<char>, right: Seq<char>)
    requires
        left != right,
    ensures
        table_path_text(base_uri, left) != table_path_text(base_uri, right),
{
    let prefix = base_uri + "/"@;
    let a = table_path_text(base_uri, left);
    let b = table_path_text(base_uri, right);
    if a == b {
        let n = prefix.len() as int;
        assert(left =~= a.subrange(n, a.len() as int));
        assert(right =~= b.subrange(n, b.len() as int));
    }
}

} // verus!
