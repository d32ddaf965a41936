//! Errors of destinations.

use vstd::prelude::*;

use crate::text;
use crate::types::TableId;

verus! {

/// What went wrong.
#[derive(Debug, Clone, Copy, PartialEq, Eq, Structural)]
pub enum ErrorKind {
    /// The system is not in the state that an operation needs.
    InvalidState,
    /// Data is not as it should be.
    InvalidData,
    /// A value does not convert.
    ConversionError,
    /// The schema of a table is not known, or lacks what is needed.
    MissingTableSchema,
    /// The destination refused an operation.
    DestinationError,
    /// A namespace exists already at the destination.
    DestinationNamespaceAlreadyExists,
    /// A table exists already at the destination.
    DestinationTableAlreadyExists,
    /// A namespace is missing at the destination.
    DestinationNamespaceMissing,
    /// A table is missing at the destination.
    DestinationTableMissing,
    /// Anything else.
    Unknown,
}

/// An error with its kind, a description and, where there is more to say, a detail.
#[derive(Debug, Clone, PartialEq, Eq)]
pub struct EtlError {
    /// What went wrong.
    pub kind: ErrorKind,
    /// A description of the error.
    pub description: &'static str,
    /// What is special about this occurrence.
    pub detail: Option<String>,
}

impl EtlError {
    /// Whether the error has this kind and this description.
    pub open spec fn is(&self, kind: ErrorKind, description: Seq<char>) -> bool {
        self.kind == kind && self.description@ == description
    }

    /// Whether the error has this kind, this description and this detail.
    pub open spec fn is_with(
        &self,
        kind: ErrorKind,
        description: Seq<char>,
        detail: Seq<char>,
    ) -> bool {
        self.is(kind, description) && self.detail is Some && self.detail->0@ == detail
    }

    /// An error without a detail.
    pub fn new(kind: ErrorKind, description: &'static str) -> (error: EtlError)
        ensures
            error.is(kind, description@),
            error.detail is None,
    {
        EtlError { kind, description, detail: None }
    }

    /// An error with a detail.
    pub fn with_detail(kind: ErrorKind, description: &'static str, detail: String) -> (error:
        EtlError)
        ensures
            error.is_with(kind, description@, detail@),
    {
        EtlError { kind, description, detail: Some(detail) }
    }
}

/// What is said of a table whose schema is not known.
pub open spec fn schema_not_found_text(table: u32) -> Seq<char> {
    "Schema for table "@ + text::decimal(table as nat) + " not found in store"@
}

/// The schema of a table, or the error that it is not known.
pub fn require_table_schema<T>(table_id: TableId, table_schema: Option<T>) -> (schema: EtlResult<T>)
    ensures
        schema is Ok <==> table_schema is Some,
        schema matches Ok(s) ==> table_schema == Some(s),
        schema matches Err(error) ==> error.is_with(
            ErrorKind::MissingTableSchema,
            "Table schema not found"@,
            schema_not_found_text(table_id.0),
        ),
{
    match table_schema {
        Some(schema) => Ok(schema),
        None => {
            let mut detail = "Schema for table ".to_string();
            text::push_decimal(&mut detail, table_id.0 as u64);
            detail.append(" not found in store");
            assert(detail@ =~= schema_not_found_text(table_id.0));
            Err(
                EtlError::with_detail(
                    ErrorKind::MissingTableSchema,
                    "Table schema not found",
                    detail,
                ),
            )
        },
    }
}

/// Whether an error tells that rows do not have the types of their columns.
pub open spec fn is_encoding_error(error: EtlError) -> bool {
    &&& error.is(ErrorKind::ConversionError, "Failed to encode table rows"@)
    &&& error.detail matches Some(detail) && "Error converting to Arrow: "@.is_prefix_of(detail@)
}

/// The error that rows do not have the types of their columns, with what Arrow says of them.
pub(crate) fn encoding_error(message: &str) -> (error: EtlError)
    ensures
        is_encoding_error(error),
        error.detail matches Some(detail) && detail@ == "Error converting to Arrow: "@ + message@,
{
    let mut detail = "Error converting to Arrow: ".to_string();
    detail.append(message);
    EtlError::with_detail(ErrorKind::ConversionError, "Failed to encode table rows", detail)
}

/// The result of an operation of a destination.
pub type EtlResult<T> = Result<T, EtlError>;

} // verus!
