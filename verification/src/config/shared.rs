//! The configuration that a replicator reads.

use std::collections::HashMap;

use vstd::prelude::*;

use crate::config::secret::SerializableSecretString;

verus! {

/// Where rows are replicated to.
#[derive(Debug, Clone)]
#[non_exhaustive]
pub enum DestinationConfig {
    /// A destination in memory, for ephemeral or test data.
    Memory,
    /// Google BigQuery.
    BigQuery {
        /// The project in Google Cloud.
        project_id: String,
        /// The dataset in BigQuery.
        dataset_id: String,
        /// The key of the service account to authenticate with.
        service_account_key: SerializableSecretString,
        /// The greatest staleness of reads, in minutes. Where there is none, that of BigQuery
        /// holds.
        max_staleness_mins: Option<u16>,
        /// The greatest number of concurrent streams of one append request. It does not limit
        /// the number of streams of all requests.
        max_concurrent_streams: usize,
    },
    /// Delta tables.
    DeltaLake {
        /// Where the tables are stored.
        base_uri: String,
        /// The options of the object store.
        storage_options: Option<HashMap<String, String>>,
        /// The columns to partition by, for each table.
        partition_columns: Option<HashMap<String, Vec<String>>>,
        /// After how many commits a table is optimized.
        optimize_after_commits: Option<u64>,
    },
}

} // verus!
