//! Which destination a replicator writes to.

use vstd::prelude::*;

use crate::config::secret::SerializableSecretString;
use crate::config::shared::DestinationConfig;
use crate::deltalake::config::TableConfigs;
use crate::deltalake::opening::DeltaDestinationConfig;

verus! {

/// The destination that a replicator starts with.
pub enum DestinationPlan {
    /// A destination in memory.
    Memory,
    /// Google BigQuery, for which the cryptography has to be set up first.
    BigQuery {
        /// The project in Google Cloud.
        project_id: String,
        /// The dataset in BigQuery.
        dataset_id: String,
        /// The key of the service account to authenticate with.
        service_account_key: SerializableSecretString,
        /// The greatest staleness of reads, in minutes.
        max_staleness_mins: Option<u16>,
        /// The greatest number of concurrent streams of one append request.
        max_concurrent_streams: usize,
    },
    /// Delta tables.
    DeltaLake(DeltaDestinationConfig),
}

/// What is logged of a destination: neither the key of the service account nor the options of the
/// object store.
#[derive(Debug, Clone, Copy)]
pub enum LoggedDestination<'a> {
    /// A destination in memory.
    Memory,
    /// Google BigQuery.
    BigQuery {
        /// The project in Google Cloud.
        project_id: &'a str,
        /// The dataset in BigQuery.
        dataset_id: &'a str,
        /// The greatest staleness of reads, in minutes.
        max_staleness_mins: Option<u16>,
        /// The greatest number of concurrent streams of one append request.
        max_concurrent_streams: usize,
    },
    /// Delta tables.
    DeltaLake {
        /// Where the tables are stored.
        base_uri: &'a str,
    },
}

/// What is logged of a destination.
pub fn log_destination_config(config: &DestinationConfig) -> (logged: LoggedDestination<'_>)
    ensures
        match *config {
            DestinationConfig::Memory => logged is Memory,
            DestinationConfig::BigQuery {
                project_id,
                dataset_id,
                service_account_key: _,
                max_staleness_mins,
                max_concurrent_streams,
            } => logged matches LoggedDestination::BigQuery {
                project_id: project,
                dataset_id: dataset,
                max_staleness_mins: staleness,
                max_concurrent_streams: streams,
            } && project@ == project_id@ && dataset@ == dataset_id@ && staleness
                == max_staleness_mins && streams == max_concurrent_streams,
            DestinationConfig::DeltaLake { base_uri, .. } =>
                logged matches LoggedDestination::DeltaLake { base_uri: uri } && uri@ == base_uri@,
        },
{
    match config {
        DestinationConfig::Memory => LoggedDestination::Memory,
        DestinationConfig::BigQuery {
            project_id,
            dataset_id,
            service_account_key: _,
            max_staleness_mins,
            max_concurrent_streams,
        } => LoggedDestination::BigQuery {
            project_id: project_id.as_str(),
            dataset_id: dataset_id.as_str(),
            max_staleness_mins: *max_staleness_mins,
            max_concurrent_streams: *max_concurrent_streams,
        },
        DestinationConfig::DeltaLake { base_uri, .. } => LoggedDestination::DeltaLake {
            base_uri: base_uri.as_str(),
        },
    }
}

/// The destination that a replicator starts with. Delta tables have no configurations of their
/// own.
pub fn start_replicator_with_config(config: DestinationConfig) -> (plan: DestinationPlan)
    ensures
        match config {
            DestinationConfig::Memory => plan is Memory,
            DestinationConfig::BigQuery {
                project_id,
                dataset_id,
                service_account_key,
                max_staleness_mins,
                max_concurrent_streams,
            } => plan == (DestinationPlan::BigQuery {
                project_id,
                dataset_id,
                service_account_key,
                max_staleness_mins,
                max_concurrent_streams,
            }),
            DestinationConfig::DeltaLake { base_uri, storage_options, .. } => {
                plan matches DestinationPlan::DeltaLake(delta) && {
                    &&& delta.base_uri == base_uri
                    &&& delta.storage_options == storage_options
                    &&& delta.table_config@.is_empty()
                }
            },
        },
{
    match config {
        DestinationConfig::Memory => DestinationPlan::Memory,
        DestinationConfig::BigQuery {
            project_id,
            dataset_id,
            service_account_key,
            max_staleness_mins,
            max_concurrent_streams,
        } => DestinationPlan::BigQuery {
            project_id,
            dataset_id,
            service_account_key,
            max_staleness_mins,
            max_concurrent_streams,
        },
        DestinationConfig::DeltaLake { base_uri, storage_options, .. } =>
            DestinationPlan::DeltaLake(
            DeltaDestinationConfig { base_uri, storage_options, table_config: TableConfigs::new() },
        ),
    }
}

} // verus!
