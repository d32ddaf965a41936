//! The operations on Delta tables that the client makes of a request.

use vstd::prelude::*;

use crate::batch::array::EncodedBatch;
use crate::delta::client::DeltaLakeClient;
use crate::delta::schema;
use crate::delta::schema::postgres_to_delta_schema;
use crate::kernel;
use crate::kernel::StructField;
use crate::types::TableSchema;

verus! {

/// An operation on a table. Its effects are seen together or not at all.
pub enum TableStep {
    /// The rows of which this predicate is true are deleted.
    Delete(String),
    /// These batches are added.
    Append(Vec<EncodedBatch>),
    /// The rows of which this predicate is true are deleted, and these batches are added. The rows
    /// of the batches are not deleted.
    DeleteAndAppend(String, Vec<EncodedBatch>),
}

/// What is done for a table that may not exist.
pub enum CreateStep {
    /// The table exists, and is used as it is.
    Use,
    /// The table is created with these columns.
    Create(Vec<StructField>),
}

/// Whether one operation deletes the rows with a predicate, if there is one, and adds batches, if
/// there are any. There is no operation if there is neither.
pub open spec fn deletes_and_appends(
    step: Option<TableStep>,
    delete_predicate: Option<&str>,
    batches: Vec<EncodedBatch>,
) -> bool {
    match delete_predicate {
        Some(predicate) => if batches@.len() > 0 {
            step matches Some(TableStep::DeleteAndAppend(text, added)) && text@ == predicate@
                && added == batches
        } else {
            step matches Some(TableStep::Delete(text)) && text@ == predicate@
        },
        None => if batches@.len() > 0 {
            step == Some(TableStep::Append(batches))
        } else {
            step is None
        },
    }
}

impl DeltaLakeClient {
    /// The deletion of the rows of which a predicate is true.
    pub fn delete_rows_where(&self, predicate: &str) -> (step: TableStep)
        ensures
            step matches TableStep::Delete(text) && text@ == predicate@,
    {
        TableStep::Delete(predicate.to_string())
    }

    /// The deletion of all rows.
    pub fn truncate_table(&self) -> (step: TableStep)
        ensures
            step matches TableStep::Delete(text) && text@ == "true"@,
    {
        TableStep::Delete("true".to_string())
    }

    /// The addition of batches. Nothing is done for none.
    pub fn append_to_table(&self, record_batches: Vec<EncodedBatch>) -> (step: Option<TableStep>)
        ensures
            deletes_and_appends(step, None, record_batches),
    {
        self.delete_and_append_transaction(None, record_batches, None)
    }

    /// The deletion of rows, if a predicate is given, and the addition of batches, if there are
    /// any, as one operation. The identifier of the write is not recorded.
    pub fn delete_and_append_transaction(
        &self,
        delete_predicate: Option<&str>,
        record_batches: Vec<EncodedBatch>,
        _app_transaction_id: Option<&str>,
    ) -> (step: Option<TableStep>)
        ensures
            deletes_and_appends(step, delete_predicate, record_batches),
    {
        match delete_predicate {
            Some(predicate) => if record_batches.len() > 0 {
                Some(TableStep::DeleteAndAppend(predicate.to_string(), record_batches))
            } else {
                Some(self.delete_rows_where(predicate))
            },
            None => if record_batches.len() > 0 {
                Some(TableStep::Append(record_batches))
            } else {
                None
            },
        }
    }

    /// What is done for a table that could or could not be opened: a table that could not is
    /// created with the columns of a schema.
    pub fn create_table_if_missing(&self, opened: bool, table_schema: &TableSchema) -> (step:
        CreateStep)
        ensures
            opened ==> step is Use,
            !opened ==> (step matches CreateStep::Create(columns) && kernel::field_views(columns@)
                == kernel::collected(schema::delta_fields(table_schema.column_schemas@))),
    {
        if opened {
            CreateStep::Use
        } else {
            CreateStep::Create(postgres_to_delta_schema(table_schema).into_fields())
        }
    }
}

} // verus!
