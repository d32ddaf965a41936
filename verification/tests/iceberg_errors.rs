use arrow::error::ArrowError;
use etl_destinations::error::ErrorKind;
use etl_destinations::iceberg_errors::{arrow_error_to_etl_error, iceberg_error_to_etl_error};
use iceberg::{Error, ErrorKind as IcebergErrorKind};

#[test]
fn iceberg_errors_are_classified() {
    let cases = vec![
        (
            IcebergErrorKind::PreconditionFailed,
            ErrorKind::InvalidState,
            "Iceberg precondition failed",
        ),
        (IcebergErrorKind::Unexpected, ErrorKind::Unknown, "An unexpected error occurred"),
        (IcebergErrorKind::DataInvalid, ErrorKind::InvalidData, "Invalid iceberg data"),
        (
            IcebergErrorKind::NamespaceAlreadyExists,
            ErrorKind::DestinationNamespaceAlreadyExists,
            "Iceberg namespace already exists",
        ),
        (
            IcebergErrorKind::TableAlreadyExists,
            ErrorKind::DestinationTableAlreadyExists,
            "Iceberg table already exists",
        ),
        (
            IcebergErrorKind::NamespaceNotFound,
            ErrorKind::DestinationNamespaceMissing,
            "Iceberg namespace missing",
        ),
        (
            IcebergErrorKind::TableNotFound,
            ErrorKind::DestinationTableMissing,
            "Iceberg table missing",
        ),
        (
            IcebergErrorKind::FeatureUnsupported,
            ErrorKind::Unknown,
            "Unsupported iceberg feature was used",
        ),
        (
            IcebergErrorKind::CatalogCommitConflicts,
            ErrorKind::DestinationError,
            "Iceberg commit conflicts occurred",
        ),
    ];
    for (iceberg_kind, kind, description) in cases {
        let error = iceberg_error_to_etl_error(Error::new(iceberg_kind, "why"));
        assert_eq!(error.kind, kind);
        assert_eq!(error.description, description);
        assert_eq!(error.detail.unwrap(), format!("{iceberg_kind} => why"));
    }
}

#[test]
fn arrow_errors_are_classified() {
    let text = || "why".to_string();
    let unknown = ErrorKind::Unknown;
    let invalid = ErrorKind::InvalidData;
    let cases = vec![
        (ArrowError::NotYetImplemented(text()), unknown, "Arrow feature not yet implemented"),
        (ArrowError::ExternalError("why".into()), unknown, "External Arrow error"),
        (ArrowError::CastError(text()), invalid, "Arrow type cast failed"),
        (ArrowError::MemoryError(text()), unknown, "Arrow memory error"),
        (ArrowError::ParseError(text()), invalid, "Arrow parsing failed"),
        (ArrowError::SchemaError(text()), invalid, "Arrow schema error"),
        (ArrowError::ComputeError(text()), unknown, "Arrow computation failed"),
        (ArrowError::DivideByZero, invalid, "Arrow divide by zero"),
        (ArrowError::ArithmeticOverflow(text()), invalid, "Arrow arithmetic overflow"),
        (ArrowError::CsvError(text()), invalid, "Arrow CSV error"),
        (ArrowError::JsonError(text()), invalid, "Arrow JSON error"),
        (
            ArrowError::IoError(text(), std::io::Error::other("why")),
            unknown,
            "Arrow IO error",
        ),
        (ArrowError::IpcError(text()), unknown, "Arrow IPC error"),
        (ArrowError::InvalidArgumentError(text()), invalid, "Arrow invalid argument"),
        (ArrowError::ParquetError(text()), invalid, "Arrow Parquet error"),
        (ArrowError::CDataInterface(text()), unknown, "Arrow C Data Interface error"),
        (ArrowError::DictionaryKeyOverflowError, invalid, "Arrow dictionary key overflow"),
        (ArrowError::RunEndIndexOverflowError, invalid, "Arrow run end index overflow"),
        (ArrowError::OffsetOverflowError(5), invalid, "Arrow offset overflow"),
    ];
    for (arrow_error, kind, description) in cases {
        let detail = arrow_error.to_string();
        let error = arrow_error_to_etl_error(arrow_error);
        assert_eq!(error.kind, kind);
        assert_eq!(error.description, description);
        assert_eq!(error.detail.unwrap(), detail);
    }
}
