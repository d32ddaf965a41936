//! Errors say what went wrong.

use vstd::prelude::*;

use arrow::error::ArrowError;
use iceberg::Error as IcebergError;

use crate::error::{EtlError, ErrorKind, require_table_schema};
use crate::deltalake::destination::{
    WriteKind, WriteOutcome, finish_write, require_schema_of_events,
};
use crate::iceberg_errors;
use crate::iceberg_errors::{
    ArrowFailure, CatalogFailure, arrow_error_to_etl_error, classify_arrow_failure,
    classify_catalog_failure, iceberg_error_to_etl_error,
};
use crate::text;
use crate::types::TableId;

verus! {

/// An error keeps what it is made of.
pub proof fn errors_keep_what_they_say(
    kind: ErrorKind,
    description: &'static str,
    detail: String,
    plain: EtlError,
    detailed: EtlError,
)
    requires
        call_ensures(EtlError::new, (kind, description), plain),
        call_ensures(EtlError::with_detail, (kind, description, detail), detailed),
    ensures
        plain.kind == kind && detailed.kind == kind,
        plain.description@ == description@ && detailed.description@ == description@,
        plain.detail is None,
        detailed.detail matches Some(d) && d@ == detail@,
{
}

/// A schema that is known is handed on. One that is not is an error that names the table.
pub proof fn unknown_schemas_are_told<T>(
    table_id: TableId,
    table_schema: Option<T>,
    required: Result<T, EtlError>,
    of_events: Result<T, EtlError>,
)
    requires
        call_ensures(require_table_schema::<T>, (table_id, table_schema), required),
        call_ensures(require_schema_of_events::<T>, (table_id, table_schema), of_events),
    ensures
        table_schema matches Some(schema) ==> required == Ok::<T, EtlError>(schema) && of_events
            == Ok::<T, EtlError>(schema),
        table_schema is None ==> {
            &&& required matches Err(error) && {
                &&& error.kind is MissingTableSchema
                &&& error.description@ == "Table schema not found"@
                &&& error.detail matches Some(detail) && detail@ == "Schema for table "@
                    + text::decimal(table_id.0 as nat) + " not found in store"@
            }
            &&& of_events matches Err(error) && {
                &&& error.kind is MissingTableSchema
                &&& error.description@ == "Table schema not found"@
                &&& error.detail matches Some(detail) && detail@ == text::decimal(table_id.0 as nat)
            }
        },
{
}

/// After a write the version of the table is the one that it has, where it is known. After an
/// append or a deletion a version that is not known is the first one; after a merge it is an error.
/// A failed write is an error that names the table and what went wrong.
pub proof fn writes_end_with_the_version_of_the_table(
    table_id: TableId,
    kind: WriteKind,
    outcome: WriteOutcome,
    version: Result<i64, EtlError>,
)
    requires
        call_ensures(finish_write, (table_id, kind, outcome), version),
    ensures
        outcome matches WriteOutcome::Written(Some(v)) ==> version == Ok::<i64, EtlError>(v),
        outcome == WriteOutcome::Written(None) && !(kind is Merge) ==> version == Ok::<
            i64,
            EtlError,
        >(0),
        outcome == WriteOutcome::Written(None) && kind is Merge ==> (version matches Err(error) && {
            &&& error.kind is DestinationError
            &&& error.description@ == "Failed to get version from Delta table"@
            &&& error.detail matches Some(detail) && detail@
                == "Error getting version from table for table_id "@ + text::decimal(
                table_id.0 as nat,
            )
        }),
        outcome matches WriteOutcome::Failed(message) ==> (version matches Err(error) && {
            let ending = text::decimal(table_id.0 as nat) + ": "@ + message@;
            &&& error.kind is DestinationError
            &&& error.detail is Some
            &&& kind is Append ==> error.description@ == "Failed to write to Delta table"@
                && error.detail->0@ == "Error writing to table for table_id "@ + ending
            &&& kind is Delete ==> error.description@ == "Failed to delete rows from Delta table"@
                && error.detail->0@ == "Error deleting from table for table_id "@ + ending
            &&& kind is Merge ==> error.description@ == "Failed to append rows to Delta table"@
                && error.detail->0@ == "Error appending to table for table_id "@ + ending
        }),
{
}

/// A failure in Iceberg is an error of the kind that it is: something exists already or is missing,
/// a state or data is not as it should be, or a commit was refused.
pub proof fn catalog_failures_have_their_kinds(
    failure: CatalogFailure,
    class: (ErrorKind, &'static str),
)
    requires
        call_ensures(classify_catalog_failure, (failure,), class),
    ensures
        class.0 is InvalidState <==> failure is PreconditionFailed,
        class.0 is InvalidData <==> failure is DataInvalid,
        class.0 is DestinationNamespaceAlreadyExists <==> failure is NamespaceAlreadyExists,
        class.0 is DestinationTableAlreadyExists <==> failure is TableAlreadyExists,
        class.0 is DestinationNamespaceMissing <==> failure is NamespaceNotFound,
        class.0 is DestinationTableMissing <==> failure is TableNotFound,
        class.0 is DestinationError <==> failure is CatalogCommitConflicts,
        class.0 is Unknown <==> (failure is Unexpected || failure is FeatureUnsupported || failure
            is Other),
        failure is PreconditionFailed ==> class.1@ == "Iceberg precondition failed"@,
        failure is Unexpected ==> class.1@ == "An unexpected error occurred"@,
        failure is DataInvalid ==> class.1@ == "Invalid iceberg data"@,
        failure is NamespaceAlreadyExists ==> class.1@ == "Iceberg namespace already exists"@,
        failure is TableAlreadyExists ==> class.1@ == "Iceberg table already exists"@,
        failure is NamespaceNotFound ==> class.1@ == "Iceberg namespace missing"@,
        failure is TableNotFound ==> class.1@ == "Iceberg table missing"@,
        failure is FeatureUnsupported ==> class.1@ == "Unsupported iceberg feature was used"@,
        failure is CatalogCommitConflicts ==> class.1@ == "Iceberg commit conflicts occurred"@,
        failure is Other ==> class.1@ == "Unknown iceberg error"@,
{
}

/// A failure in Arrow is an error of data where the data is at fault, and of no known kind
/// otherwise.
pub proof fn arrow_failures_have_their_kinds(failure: ArrowFailure, class: (ErrorKind, &'static str))
    requires
        call_ensures(classify_arrow_failure, (failure,), class),
    ensures
        class.0 is InvalidData || class.0 is Unknown,
        class.0 is Unknown <==> (failure is NotYetImplemented || failure is External || failure
            is Memory || failure is Compute || failure is Io || failure is Ipc || failure
            is CDataInterface),
        failure is NotYetImplemented ==> class.1@ == "Arrow feature not yet implemented"@,
        failure is External ==> class.1@ == "External Arrow error"@,
        failure is Cast ==> class.1@ == "Arrow type cast failed"@,
        failure is Memory ==> class.1@ == "Arrow memory error"@,
        failure is Parse ==> class.1@ == "Arrow parsing failed"@,
        failure is Schema ==> class.1@ == "Arrow schema error"@,
        failure is Compute ==> class.1@ == "Arrow computation failed"@,
        failure is DivideByZero ==> class.1@ == "Arrow divide by zero"@,
        failure is ArithmeticOverflow ==> class.1@ == "Arrow arithmetic overflow"@,
        failure is Csv ==> class.1@ == "Arrow CSV error"@,
        failure is Json ==> class.1@ == "Arrow JSON error"@,
        failure is Io ==> class.1@ == "Arrow IO error"@,
        failure is Ipc ==> class.1@ == "Arrow IPC error"@,
        failure is InvalidArgument ==> class.1@ == "Arrow invalid argument"@,
        failure is Parquet ==> class.1@ == "Arrow Parquet error"@,
        failure is CDataInterface ==> class.1@ == "Arrow C Data Interface error"@,
        failure is DictionaryKeyOverflow ==> class.1@ == "Arrow dictionary key overflow"@,
        failure is RunEndIndexOverflow ==> class.1@ == "Arrow run end index overflow"@,
        failure is OffsetOverflow ==> class.1@ == "Arrow offset overflow"@,
{
}

/// An error of Iceberg or Arrow is classified by its failure, and keeps its text.
pub proof fn outside_errors_keep_their_texts(
    catalog: IcebergError,
    of_catalog: EtlError,
    catalog_class: (ErrorKind, &'static str),
    arrow: ArrowError,
    of_arrow: EtlError,
    arrow_class: (ErrorKind, &'static str),
)
    requires
        call_ensures(iceberg_error_to_etl_error, (catalog,), of_catalog),
        call_ensures(
            classify_catalog_failure,
            (iceberg_errors::catalog_failure(catalog),),
            catalog_class,
        ),
        call_ensures(arrow_error_to_etl_error, (arrow,), of_arrow),
        call_ensures(classify_arrow_failure, (iceberg_errors::arrow_failure(arrow),), arrow_class),
    ensures
        of_catalog.kind == catalog_class.0,
        of_catalog.description@ == catalog_class.1@,
        of_catalog.detail matches Some(detail) && detail@ == iceberg_errors::catalog_error_text(
            catalog,
        ),
        of_arrow.kind == arrow_class.0,
        of_arrow.description@ == arrow_class.1@,
        of_arrow.detail matches Some(detail) && detail@ == iceberg_errors::arrow_error_text(arrow),
{
}

} // verus!
