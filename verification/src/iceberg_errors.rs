//! Errors of Iceberg and of Arrow as errors of a destination.

use arrow::error::ArrowError;
use iceberg::{Error as IcebergError, ErrorKind as IcebergErrorKind};
use vstd::prelude::*;

use crate::error::{EtlError, ErrorKind};

verus! {

/// Declares `iceberg::Error`.
#[verifier::external_type_specification]
#[verifier::external_body]
pub struct ExIcebergError(IcebergError);

/// Declares `arrow::error::ArrowError`.
#[verifier::external_type_specification]
#[verifier::external_body]
pub struct ExArrowError(ArrowError);

/// What went wrong in Iceberg.
#[derive(Debug, Clone, Copy, PartialEq, Eq, Structural)]
pub enum CatalogFailure {
    /// The system was not in the state that the operation needs.
    PreconditionFailed,
    /// Nobody knows.
    Unexpected,
    /// The data was invalid.
    DataInvalid,
    /// The namespace existed already.
    NamespaceAlreadyExists,
    /// The table existed already.
    TableAlreadyExists,
    /// The namespace was not found.
    NamespaceNotFound,
    /// The table was not found.
    TableNotFound,
    /// The feature is not supported.
    FeatureUnsupported,
    /// The commit was based on outdated metadata.
    CatalogCommitConflicts,
    /// Anything else.
    Other,
}

/// What went wrong in Arrow.
#[derive(Debug, Clone, Copy, PartialEq, Eq, Structural)]
pub enum ArrowFailure {
    /// Something is not implemented yet.
    NotYetImplemented,
    /// Something went wrong outside of Arrow.
    External,
    /// A value could not be cast.
    Cast,
    /// There was not enough memory.
    Memory,
    /// A text could not be parsed.
    Parse,
    /// A schema was wrong.
    Schema,
    /// A computation failed.
    Compute,
    /// A number was divided by zero.
    DivideByZero,
    /// A number was too large.
    ArithmeticOverflow,
    /// A CSV file was wrong.
    Csv,
    /// A JSON file was wrong.
    Json,
    /// Reading or writing failed.
    Io,
    /// Communication failed.
    Ipc,
    /// An argument was wrong.
    InvalidArgument,
    /// A Parquet file was wrong.
    Parquet,
    /// Exchange with C failed.
    CDataInterface,
    /// The key of a dictionary was too large.
    DictionaryKeyOverflow,
    /// The index of a run was too large.
    RunEndIndexOverflow,
    /// An offset was too large.
    OffsetOverflow,
}

/// What went wrong, for an error of Iceberg.
pub uninterp spec fn catalog_failure(error: IcebergError) -> CatalogFailure;

/// The text of an error of Iceberg.
pub uninterp spec fn catalog_error_text(error: IcebergError) -> Seq<char>;

/// What went wrong, for an error of Arrow.
pub uninterp spec fn arrow_failure(error: ArrowError) -> ArrowFailure;

/// The text of an error of Arrow.
pub uninterp spec fn arrow_error_text(error: ArrowError) -> Seq<char>;

/// Calls `iceberg::Error::kind`, which depends on the error alone. Any kind that has no failure
/// of its own is another failure.
#[verifier::external_body]
fn failure_of_catalog(error: &IcebergError) -> (failure: CatalogFailure)
    ensures
        failure == catalog_failure(*error),
{
    match error.kind() {
        IcebergErrorKind::PreconditionFailed => CatalogFailure::PreconditionFailed,
        IcebergErrorKind::Unexpected => CatalogFailure::Unexpected,
        IcebergErrorKind::DataInvalid => CatalogFailure::DataInvalid,
        IcebergErrorKind::NamespaceAlreadyExists => CatalogFailure::NamespaceAlreadyExists,
        IcebergErrorKind::TableAlreadyExists => CatalogFailure::TableAlreadyExists,
        IcebergErrorKind::NamespaceNotFound => CatalogFailure::NamespaceNotFound,
        IcebergErrorKind::TableNotFound => CatalogFailure::TableNotFound,
        IcebergErrorKind::FeatureUnsupported => CatalogFailure::FeatureUnsupported,
        IcebergErrorKind::CatalogCommitConflicts => CatalogFailure::CatalogCommitConflicts,
        _ => CatalogFailure::Other,
    }
}

/// Calls `to_string` on an `iceberg::Error`. Which text that is depends on the error alone.
#[verifier::external_body]
fn text_of_catalog(error: &IcebergError) -> (text: String)
    ensures
        text@ == catalog_error_text(*error),
{
    error.to_string()
}

/// Whether a failure is one of those that are told apart first.
pub open spec fn is_told_first(failure: ArrowFailure) -> bool {
    match failure {
        ArrowFailure::NotYetImplemented
        | ArrowFailure::External
        | ArrowFailure::Cast
        | ArrowFailure::Memory
        | ArrowFailure::Parse
        | ArrowFailure::Schema
        | ArrowFailure::Compute
        | ArrowFailure::DivideByZero
        | ArrowFailure::ArithmeticOverflow
        | ArrowFailure::Csv => true,
        _ => false,
    }
}

/// Tells one half of the variants of `ArrowError` apart: there is a failure for an error of these
/// variants, and for no other.
#[verifier::external_body]
fn first_failure_of_arrow(error: &ArrowError) -> (failure: Option<ArrowFailure>)
    ensures
        failure is Some <==> is_told_first(arrow_failure(*error)),
        failure matches Some(f) ==> f == arrow_failure(*error),
{
    match error {
        ArrowError::NotYetImplemented(_) => Some(ArrowFailure::NotYetImplemented),
        ArrowError::ExternalError(_) => Some(ArrowFailure::External),
        ArrowError::CastError(_) => Some(ArrowFailure::Cast),
        ArrowError::MemoryError(_) => Some(ArrowFailure::Memory),
        ArrowError::ParseError(_) => Some(ArrowFailure::Parse),
        ArrowError::SchemaError(_) => Some(ArrowFailure::Schema),
        ArrowError::ComputeError(_) => Some(ArrowFailure::Compute),
        ArrowError::DivideByZero => Some(ArrowFailure::DivideByZero),
        ArrowError::ArithmeticOverflow(_) => Some(ArrowFailure::ArithmeticOverflow),
        ArrowError::CsvError(_) => Some(ArrowFailure::Csv),
        _ => None,
    }
}

/// Tells the other half of the variants of `ArrowError` apart, of which an offset that is too
/// large is the last.
#[verifier::external_body]
fn second_failure_of_arrow(error: &ArrowError) -> (failure: ArrowFailure)
    requires
        !is_told_first(arrow_failure(*error)),
    ensures
        failure == arrow_failure(*error),
{
    match error {
        ArrowError::JsonError(_) => ArrowFailure::Json,
        ArrowError::IoError(_, _) => ArrowFailure::Io,
        ArrowError::IpcError(_) => ArrowFailure::Ipc,
        ArrowError::InvalidArgumentError(_) => ArrowFailure::InvalidArgument,
        ArrowError::ParquetError(_) => ArrowFailure::Parquet,
        ArrowError::CDataInterface(_) => ArrowFailure::CDataInterface,
        ArrowError::DictionaryKeyOverflowError => ArrowFailure::DictionaryKeyOverflow,
        ArrowError::RunEndIndexOverflowError => ArrowFailure::RunEndIndexOverflow,
        _ => ArrowFailure::OffsetOverflow,
    }
}

/// Calls `to_string` on an `ArrowError`. Which text that is depends on the error alone.
#[verifier::external_body]
fn text_of_arrow(error: &ArrowError) -> (text: String)
    ensures
        text@ == arrow_error_text(*error),
{
    error.to_string()
}

/// The kind and the description of an error for a failure in Iceberg.
pub open spec fn catalog_error_kind(failure: CatalogFailure) -> (ErrorKind, Seq<char>) {
    match failure {
        CatalogFailure::PreconditionFailed => (
            ErrorKind::InvalidState,
            "Iceberg precondition failed"@,
        ),
        CatalogFailure::Unexpected => (ErrorKind::Unknown, "An unexpected error occurred"@),
        CatalogFailure::DataInvalid => (ErrorKind::InvalidData, "Invalid iceberg data"@),
        CatalogFailure::NamespaceAlreadyExists => (
            ErrorKind::DestinationNamespaceAlreadyExists,
            "Iceberg namespace already exists"@,
        ),
        CatalogFailure::TableAlreadyExists => (
            ErrorKind::DestinationTableAlreadyExists,
            "Iceberg table already exists"@,
        ),
        CatalogFailure::NamespaceNotFound => (
            ErrorKind::DestinationNamespaceMissing,
            "Iceberg namespace missing"@,
        ),
        CatalogFailure::TableNotFound => (
            ErrorKind::DestinationTableMissing,
            "Iceberg table missing"@,
        ),
        CatalogFailure::FeatureUnsupported => (
            ErrorKind::Unknown,
            "Unsupported iceberg feature was used"@,
        ),
        CatalogFailure::CatalogCommitConflicts => (
            ErrorKind::DestinationError,
            "Iceberg commit conflicts occurred"@,
        ),
        CatalogFailure::Other => (ErrorKind::Unknown, "Unknown iceberg error"@),
    }
}

/// The kind and the description of an error for a failure in Arrow.
pub open spec fn arrow_error_kind(failure: ArrowFailure) -> (ErrorKind, Seq<char>) {
    match failure {
        ArrowFailure::NotYetImplemented => (
            ErrorKind::Unknown,
            "Arrow feature not yet implemented"@,
        ),
        ArrowFailure::External => (ErrorKind::Unknown, "External Arrow error"@),
        ArrowFailure::Cast => (ErrorKind::InvalidData, "Arrow type cast failed"@),
        ArrowFailure::Memory => (ErrorKind::Unknown, "Arrow memory error"@),
        ArrowFailure::Parse => (ErrorKind::InvalidData, "Arrow parsing failed"@),
        ArrowFailure::Schema => (ErrorKind::InvalidData, "Arrow schema error"@),
        ArrowFailure::Compute => (ErrorKind::Unknown, "Arrow computation failed"@),
        ArrowFailure::DivideByZero => (ErrorKind::InvalidData, "Arrow divide by zero"@),
        ArrowFailure::ArithmeticOverflow => (
            ErrorKind::InvalidData,
            "Arrow arithmetic overflow"@,
        ),
        ArrowFailure::Csv => (ErrorKind::InvalidData, "Arrow CSV error"@),
        ArrowFailure::Json => (ErrorKind::InvalidData, "Arrow JSON error"@),
        ArrowFailure::Io => (ErrorKind::Unknown, "Arrow IO error"@),
        ArrowFailure::Ipc => (ErrorKind::Unknown, "Arrow IPC error"@),
        ArrowFailure::InvalidArgument => (ErrorKind::InvalidData, "Arrow invalid argument"@),
        ArrowFailure::Parquet => (ErrorKind::InvalidData, "Arrow Parquet error"@),
        ArrowFailure::CDataInterface => (ErrorKind::Unknown, "Arrow C Data Interface error"@),
        ArrowFailure::DictionaryKeyOverflow => (
            ErrorKind::InvalidData,
            "Arrow dictionary key overflow"@,
        ),
        ArrowFailure::RunEndIndexOverflow => (
            ErrorKind::InvalidData,
            "Arrow run end index overflow"@,
        ),
        ArrowFailure::OffsetOverflow => (ErrorKind::InvalidData, "Arrow offset overflow"@),
    }
}

/// The kind and the description of an error for a failure in Iceberg.
pub fn classify_catalog_failure(failure: CatalogFailure) -> (class: (ErrorKind, &'static str))
    ensures
        (class.0, class.1@) == catalog_error_kind(failure),
{
    match failure {
        CatalogFailure::PreconditionFailed => (
            ErrorKind::InvalidState,
            "Iceberg precondition failed",
        ),
        CatalogFailure::Unexpected => (ErrorKind::Unknown, "An unexpected error occurred"),
        CatalogFailure::DataInvalid => (ErrorKind::InvalidData, "Invalid iceberg data"),
        CatalogFailure::NamespaceAlreadyExists => (
            ErrorKind::DestinationNamespaceAlreadyExists,
            "Iceberg namespace already exists",
        ),
        CatalogFailure::TableAlreadyExists => (
            ErrorKind::DestinationTableAlreadyExists,
            "Iceberg table already exists",
        ),
        CatalogFailure::NamespaceNotFound => (
            ErrorKind::DestinationNamespaceMissing,
            "Iceberg namespace missing",
        ),
        CatalogFailure::TableNotFound => (
            ErrorKind::DestinationTableMissing,
            "Iceberg table missing",
        ),
        CatalogFailure::FeatureUnsupported => (
            ErrorKind::Unknown,
            "Unsupported iceberg feature was used",
        ),
        CatalogFailure::CatalogCommitConflicts => (
            ErrorKind::DestinationError,
            "Iceberg commit conflicts occurred",
        ),
        CatalogFailure::Other => (ErrorKind::Unknown, "Unknown iceberg error"),
    }
}

/// The kind and the description of an error for a failure in Arrow.
pub fn classify_arrow_failure(failure: ArrowFailure) -> (class: (ErrorKind, &'static str))
    ensures
        (class.0, class.1@) == arrow_error_kind(failure),
{
    match failure {
        ArrowFailure::NotYetImplemented => (
            ErrorKind::Unknown,
            "Arrow feature not yet implemented",
        ),
        ArrowFailure::External => (ErrorKind::Unknown, "External Arrow error"),
        ArrowFailure::Cast => (ErrorKind::InvalidData, "Arrow type cast failed"),
        ArrowFailure::Memory => (ErrorKind::Unknown, "Arrow memory error"),
        ArrowFailure::Parse => (ErrorKind::InvalidData, "Arrow parsing failed"),
        ArrowFailure::Schema => (ErrorKind::InvalidData, "Arrow schema error"),
        ArrowFailure::Compute => (ErrorKind::Unknown, "Arrow computation failed"),
        ArrowFailure::DivideByZero => (ErrorKind::InvalidData, "Arrow divide by zero"),
        ArrowFailure::ArithmeticOverflow => (ErrorKind::InvalidData, "Arrow arithmetic overflow"),
        ArrowFailure::Csv => (ErrorKind::InvalidData, "Arrow CSV error"),
        ArrowFailure::Json => (ErrorKind::InvalidData, "Arrow JSON error"),
        ArrowFailure::Io => (ErrorKind::Unknown, "Arrow IO error"),
        ArrowFailure::Ipc => (ErrorKind::Unknown, "Arrow IPC error"),
        ArrowFailure::InvalidArgument => (ErrorKind::InvalidData, "Arrow invalid argument"),
        ArrowFailure::Parquet => (ErrorKind::InvalidData, "Arrow Parquet error"),
        ArrowFailure::CDataInterface => (ErrorKind::Unknown, "Arrow C Data Interface error"),
        ArrowFailure::DictionaryKeyOverflow => (
            ErrorKind::InvalidData,
            "Arrow dictionary key overflow",
        ),
        ArrowFailure::RunEndIndexOverflow => (
            ErrorKind::InvalidData,
            "Arrow run end index overflow",
        ),
        ArrowFailure::OffsetOverflow => (ErrorKind::InvalidData, "Arrow offset overflow"),
    }
}

/// An error of Iceberg as an error of a destination.
pub fn iceberg_error_to_etl_error(err: IcebergError) -> (error: EtlError)
    ensures
        error.is_with(
            catalog_error_kind(catalog_failure(err)).0,
            catalog_error_kind(catalog_failure(err)).1,
            catalog_error_text(err),
        ),
{
    let (kind, description) = classify_catalog_failure(failure_of_catalog(&err));
    EtlError::with_detail(kind, description, text_of_catalog(&err))
}

/// An error of Arrow as an error of a destination.
pub fn arrow_error_to_etl_error(err: ArrowError) -> (error: EtlError)
    ensures
        error.is_with(
            arrow_error_kind(arrow_failure(err)).0,
            arrow_error_kind(arrow_failure(err)).1,
            arrow_error_text(err),
        ),
{
    let failure = match first_failure_of_arrow(&err) {
        Some(failure) => failure,
        None => second_failure_of_arrow(&err),
    };
    let (kind, description) = classify_arrow_failure(failure);
    EtlError::with_detail(kind, description, text_of_arrow(&err))
}

} // verus!
