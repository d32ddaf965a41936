//! The configuration of destinations as the API takes it, stores it and hands it on.

use std::collections::HashMap;

use vstd::prelude::*;
use vstd::std_specs::convert::FromSpecImpl;

use crate::config::encryption;
use crate::config::encryption::{
    Decrypt, DecryptionError, Encrypt, EncryptedValue, EncryptionError, EncryptionKey, decrypt_text,
    encrypt_text,
};
use crate::config::secret::SerializableSecretString;
use crate::config::shared::DestinationConfig;

verus! {

/// The number of concurrent streams where a request gives none.
pub const DEFAULT_MAX_CONCURRENT_STREAMS: usize = 8;

/// The configuration of a destination in requests and responses.
#[derive(Debug, Clone)]
#[non_exhaustive]
pub enum FullApiDestinationConfig {
    /// A destination in memory.
    Memory,
    /// Google BigQuery.
    BigQuery {
        /// The project in Google Cloud.
        project_id: String,
        /// The dataset in BigQuery.
        dataset_id: String,
        /// The key of the service account to authenticate with.
        service_account_key: SerializableSecretString,
        /// The greatest staleness of reads, in minutes.
        max_staleness_mins: Option<u16>,
        /// The greatest number of concurrent streams of one append request.
        max_concurrent_streams: Option<usize>,
    },
    /// Delta tables.
    DeltaLake {
        /// Where the tables are stored.
        base_uri: String,
        /// The options of the object store.
        storage_options: Option<HashMap<String, String>>,
        /// The columns to partition by, for each table.
        partition_columns: Option<HashMap<String, Vec<String>>>,
        /// After how many commits a table is optimized.
        optimize_after_commits: Option<u64>,
    },
}

/// The configuration of a destination, complete and in the clear.
#[derive(Debug, Clone)]
pub enum StoredDestinationConfig {
    /// A destination in memory.
    Memory,
    /// Google BigQuery.
    BigQuery {
        /// The project in Google Cloud.
        project_id: String,
        /// The dataset in BigQuery.
        dataset_id: String,
        /// The key of the service account to authenticate with.
        service_account_key: SerializableSecretString,
        /// The greatest staleness of reads, in minutes.
        max_staleness_mins: Option<u16>,
        /// The greatest number of concurrent streams of one append request.
        max_concurrent_streams: usize,
    },
    /// Delta tables.
    DeltaLake {
        /// Where the tables are stored.
        base_uri: String,
        /// The options of the object store.
        storage_options: Option<HashMap<String, String>>,
        /// The columns to partition by, for each table.
        partition_columns: Option<HashMap<String, Vec<String>>>,
        /// After how many commits a table is optimized.
        optimize_after_commits: Option<u64>,
    },
}

/// The configuration of a destination as it is stored, with its secrets encrypted.
#[derive(Debug, Clone)]
#[non_exhaustive]
pub enum EncryptedStoredDestinationConfig {
    /// A destination in memory.
    Memory,
    /// Google BigQuery.
    BigQuery {
        /// The project in Google Cloud.
        project_id: String,
        /// The dataset in BigQuery.
        dataset_id: String,
        /// The key of the service account to authenticate with.
        service_account_key: EncryptedValue,
        /// The greatest staleness of reads, in minutes.
        max_staleness_mins: Option<u16>,
        /// The greatest number of concurrent streams of one append request.
        max_concurrent_streams: usize,
    },
    /// Delta tables.
    DeltaLake {
        /// Where the tables are stored.
        base_uri: String,
        /// The options of the object store.
        storage_options: Option<HashMap<String, String>>,
        /// The columns to partition by, for each table.
        partition_columns: Option<HashMap<String, Vec<String>>>,
        /// After how many commits a table is optimized.
        optimize_after_commits: Option<u64>,
    },
}

/// A stored configuration as the API shows it.
pub open spec fn full_config(value: StoredDestinationConfig) -> FullApiDestinationConfig {
    match value {
        StoredDestinationConfig::Memory => FullApiDestinationConfig::Memory,
        StoredDestinationConfig::BigQuery {
            project_id,
            dataset_id,
            service_account_key,
            max_staleness_mins,
            max_concurrent_streams,
        } => FullApiDestinationConfig::BigQuery {
            project_id,
            dataset_id,
            service_account_key,
            max_staleness_mins,
            max_concurrent_streams: Some(max_concurrent_streams),
        },
        StoredDestinationConfig::DeltaLake {
            base_uri,
            storage_options,
            partition_columns,
            optimize_after_commits,
        } => FullApiDestinationConfig::DeltaLake {
            base_uri,
            storage_options,
            partition_columns,
            optimize_after_commits,
        },
    }
}

impl FromSpecImpl<StoredDestinationConfig> for FullApiDestinationConfig {
    open spec fn obeys_from_spec() -> bool {
        true
    }

    open spec fn from_spec(value: StoredDestinationConfig) -> Self {
        full_config(value)
    }
}

impl From<StoredDestinationConfig> for FullApiDestinationConfig {
    fn from(value: StoredDestinationConfig) -> (config: Self) {
        match value {
            StoredDestinationConfig::Memory => FullApiDestinationConfig::Memory,
            StoredDestinationConfig::BigQuery {
                project_id,
                dataset_id,
                service_account_key,
                max_staleness_mins,
                max_concurrent_streams,
            } => FullApiDestinationConfig::BigQuery {
                project_id,
                dataset_id,
                service_account_key,
                max_staleness_mins,
                max_concurrent_streams: Some(max_concurrent_streams),
            },
            StoredDestinationConfig::DeltaLake {
                base_uri,
                storage_options,
                partition_columns,
                optimize_after_commits,
            } => FullApiDestinationConfig::DeltaLake {
                base_uri,
                storage_options,
                partition_columns,
                optimize_after_commits,
            },
        }
    }
}

/// A configuration from the API as it is stored: a missing number of streams becomes the default.
pub open spec fn stored_config(value: FullApiDestinationConfig) -> StoredDestinationConfig {
    match value {
        FullApiDestinationConfig::Memory => StoredDestinationConfig::Memory,
        FullApiDestinationConfig::BigQuery {
            project_id,
            dataset_id,
            service_account_key,
            max_staleness_mins,
            max_concurrent_streams,
        } => StoredDestinationConfig::BigQuery {
            project_id,
            dataset_id,
            service_account_key,
            max_staleness_mins,
            max_concurrent_streams: match max_concurrent_streams {
                Some(streams) => streams,
                None => DEFAULT_MAX_CONCURRENT_STREAMS,
            },
        },
        FullApiDestinationConfig::DeltaLake {
            base_uri,
            storage_options,
            partition_columns,
            optimize_after_commits,
        } => StoredDestinationConfig::DeltaLake {
            base_uri,
            storage_options,
            partition_columns,
            optimize_after_commits,
        },
    }
}

impl FromSpecImpl<FullApiDestinationConfig> for StoredDestinationConfig {
    open spec fn obeys_from_spec() -> bool {
        true
    }

    open spec fn from_spec(value: FullApiDestinationConfig) -> Self {
        stored_config(value)
    }
}

impl From<FullApiDestinationConfig> for StoredDestinationConfig {
    fn from(value: FullApiDestinationConfig) -> (config: Self) {
        match value {
            FullApiDestinationConfig::Memory => StoredDestinationConfig::Memory,
            FullApiDestinationConfig::BigQuery {
                project_id,
                dataset_id,
                service_account_key,
                max_staleness_mins,
                max_concurrent_streams,
            } => StoredDestinationConfig::BigQuery {
                project_id,
                dataset_id,
                service_account_key,
                max_staleness_mins,
                max_concurrent_streams: match max_concurrent_streams {
                    Some(streams) => streams,
                    None => DEFAULT_MAX_CONCURRENT_STREAMS,
                },
            },
            FullApiDestinationConfig::DeltaLake {
                base_uri,
                storage_options,
                partition_columns,
                optimize_after_commits,
            } => StoredDestinationConfig::DeltaLake {
                base_uri,
                storage_options,
                partition_columns,
                optimize_after_commits,
            },
        }
    }
}

impl StoredDestinationConfig {
    /// The same configuration, as a replicator reads it.
    pub open spec fn etl_config(self) -> DestinationConfig {
        match self {
            StoredDestinationConfig::Memory => DestinationConfig::Memory,
            StoredDestinationConfig::BigQuery {
                project_id,
                dataset_id,
                service_account_key,
                max_staleness_mins,
                max_concurrent_streams,
            } => DestinationConfig::BigQuery {
                project_id,
                dataset_id,
                service_account_key,
                max_staleness_mins,
                max_concurrent_streams,
            },
            StoredDestinationConfig::DeltaLake {
                base_uri,
                storage_options,
                partition_columns,
                optimize_after_commits,
            } => DestinationConfig::DeltaLake {
                base_uri,
                storage_options,
                partition_columns,
                optimize_after_commits,
            },
        }
    }

    /// Whether two configurations are the same, secrets being compared by their texts.
    pub open spec fn same(self, other: StoredDestinationConfig) -> bool {
        match (self, other) {
            (
                StoredDestinationConfig::BigQuery {
                    project_id,
                    dataset_id,
                    service_account_key,
                    max_staleness_mins,
                    max_concurrent_streams,
                },
                StoredDestinationConfig::BigQuery {
                    project_id: other_project_id,
                    dataset_id: other_dataset_id,
                    service_account_key: other_key,
                    max_staleness_mins: other_staleness,
                    max_concurrent_streams: other_streams,
                },
            ) => {
                &&& project_id == other_project_id
                &&& dataset_id == other_dataset_id
                &&& service_account_key@ == other_key@
                &&& max_staleness_mins == other_staleness
                &&& max_concurrent_streams == other_streams
            },
            _ => self == other,
        }
    }

    /// The same configuration, as a replicator reads it.
    pub fn into_etl_config(self) -> (config: DestinationConfig)
        ensures
            config == self.etl_config(),
    {
        match self {
            StoredDestinationConfig::Memory => DestinationConfig::Memory,
            StoredDestinationConfig::BigQuery {
                project_id,
                dataset_id,
                service_account_key,
                max_staleness_mins,
                max_concurrent_streams,
            } => DestinationConfig::BigQuery {
                project_id,
                dataset_id,
                service_account_key,
                max_staleness_mins,
                max_concurrent_streams,
            },
            StoredDestinationConfig::DeltaLake {
                base_uri,
                storage_options,
                partition_columns,
                optimize_after_commits,
            } => DestinationConfig::DeltaLake {
                base_uri,
                storage_options,
                partition_columns,
                optimize_after_commits,
            },
        }
    }

    /// The stored form of the configuration, given what the encryption of its secret returned. A
    /// configuration without a secret does not depend on it.
    pub fn with_encrypted_secret(self, secret: Result<EncryptedValue, EncryptionError>) -> (encrypted:
        Result<EncryptedStoredDestinationConfig, EncryptionError>)
        ensures
            encrypted == match self {
                StoredDestinationConfig::Memory => Ok::<_, EncryptionError>(
                    EncryptedStoredDestinationConfig::Memory,
                ),
                StoredDestinationConfig::BigQuery {
                    project_id,
                    dataset_id,
                    service_account_key: _,
                    max_staleness_mins,
                    max_concurrent_streams,
                } => match secret {
                    Ok(value) => Ok(
                        EncryptedStoredDestinationConfig::BigQuery {
                            project_id,
                            dataset_id,
                            service_account_key: value,
                            max_staleness_mins,
                            max_concurrent_streams,
                        },
                    ),
                    Err(error) => Err(error),
                },
                StoredDestinationConfig::DeltaLake {
                    base_uri,
                    storage_options,
                    partition_columns,
                    optimize_after_commits,
                } => Ok(
                    EncryptedStoredDestinationConfig::DeltaLake {
                        base_uri,
                        storage_options,
                        partition_columns,
                        optimize_after_commits,
                    },
                ),
            },
    {
        match self {
            StoredDestinationConfig::Memory => Ok(EncryptedStoredDestinationConfig::Memory),
            StoredDestinationConfig::BigQuery {
                project_id,
                dataset_id,
                service_account_key: _,
                max_staleness_mins,
                max_concurrent_streams,
            } => match secret {
                Ok(value) => Ok(
                    EncryptedStoredDestinationConfig::BigQuery {
                        project_id,
                        dataset_id,
                        service_account_key: value,
                        max_staleness_mins,
                        max_concurrent_streams,
                    },
                ),
                Err(error) => Err(error),
            },
            StoredDestinationConfig::DeltaLake {
                base_uri,
                storage_options,
                partition_columns,
                optimize_after_commits,
            } => Ok(
                EncryptedStoredDestinationConfig::DeltaLake {
                    base_uri,
                    storage_options,
                    partition_columns,
                    optimize_after_commits,
                },
            ),
        }
    }
}

impl Encrypt<EncryptedStoredDestinationConfig> for StoredDestinationConfig {
    open spec fn is_encrypted_as(
        self,
        key: EncryptionKey,
        encrypted: EncryptedStoredDestinationConfig,
    ) -> bool {
        match self {
            StoredDestinationConfig::Memory => encrypted is Memory,
            StoredDestinationConfig::BigQuery {
                project_id,
                dataset_id,
                service_account_key,
                max_staleness_mins,
                max_concurrent_streams,
            } => exists|value: EncryptedValue|
                {
                    &&& encrypted == (EncryptedStoredDestinationConfig::BigQuery {
                        project_id,
                        dataset_id,
                        service_account_key: value,
                        max_staleness_mins,
                        max_concurrent_streams,
                    })
                    &&& #[trigger] encryption::decrypted(value, key) == Ok::<
                        Seq<char>,
                        DecryptionError,
                    >(service_account_key@)
                },
            StoredDestinationConfig::DeltaLake {
                base_uri,
                storage_options,
                partition_columns,
                optimize_after_commits,
            } => encrypted == (EncryptedStoredDestinationConfig::DeltaLake {
                base_uri,
                storage_options,
                partition_columns,
                optimize_after_commits,
            }),
        }
    }

    open spec fn has_secret(self) -> bool {
        self is BigQuery
    }

    fn encrypt(self, encryption_key: &EncryptionKey) -> (encrypted: Result<
        EncryptedStoredDestinationConfig,
        EncryptionError,
    >) {
        let secret = match &self {
            StoredDestinationConfig::BigQuery { service_account_key, .. } => encrypt_text(
                service_account_key.expose_secret().to_owned(),
                encryption_key,
            ),
            _ => Err(EncryptionError::Unspecified),
        };
        assert(secret matches Ok(value) ==> encryption::decrypted(value, *encryption_key) is Ok);
        self.with_encrypted_secret(secret)
    }
}

impl Decrypt<StoredDestinationConfig> for EncryptedStoredDestinationConfig {
    open spec fn is_decrypted_as(
        self,
        key: EncryptionKey,
        decrypted: Result<StoredDestinationConfig, DecryptionError>,
    ) -> bool {
        match self {
            EncryptedStoredDestinationConfig::Memory => decrypted == Ok::<_, DecryptionError>(
                StoredDestinationConfig::Memory,
            ),
            EncryptedStoredDestinationConfig::BigQuery {
                project_id,
                dataset_id,
                service_account_key,
                max_staleness_mins,
                max_concurrent_streams,
            } => match encryption::decrypted(service_account_key, key) {
                Ok(text) => decrypted is Ok && exists|secret: SerializableSecretString|
                    {
                        &&& decrypted->Ok_0 == (StoredDestinationConfig::BigQuery {
                            project_id,
                            dataset_id,
                            service_account_key: secret,
                            max_staleness_mins,
                            max_concurrent_streams,
                        })
                        &&& #[trigger] secret@ == text
                    },
                Err(error) => decrypted == Err::<StoredDestinationConfig, _>(error),
            },
            EncryptedStoredDestinationConfig::DeltaLake {
                base_uri,
                storage_options,
                partition_columns,
                optimize_after_commits,
            } => decrypted == Ok::<_, DecryptionError>(
                StoredDestinationConfig::DeltaLake {
                    base_uri,
                    storage_options,
                    partition_columns,
                    optimize_after_commits,
                },
            ),
        }
    }

    fn decrypt(self, encryption_key: &EncryptionKey) -> (decrypted: Result<
        StoredDestinationConfig,
        DecryptionError,
    >) {
        match self {
            EncryptedStoredDestinationConfig::Memory => Ok(StoredDestinationConfig::Memory),
            EncryptedStoredDestinationConfig::BigQuery {
                project_id,
                dataset_id,
                service_account_key,
                max_staleness_mins,
                max_concurrent_streams,
            } => {
                match decrypt_text(service_account_key, encryption_key) {
                    Ok(text) => {
                        let secret = SerializableSecretString::from(text);
                        Ok(
                            StoredDestinationConfig::BigQuery {
                                project_id,
                                dataset_id,
                                service_account_key: secret,
                                max_staleness_mins,
                                max_concurrent_streams,
                            },
                        )
                    },
                    Err(error) => Err(error),
                }
            },
            EncryptedStoredDestinationConfig::DeltaLake {
                base_uri,
                storage_options,
                partition_columns,
                optimize_after_commits,
            } => Ok(
                StoredDestinationConfig::DeltaLake {
                    base_uri,
                    storage_options,
                    partition_columns,
                    optimize_after_commits,
                },
            ),
        }
    }
}

/// A stored configuration survives the way to the API and back.
pub proof fn stored_config_survives_api(config: StoredDestinationConfig)
    ensures
        stored_config(full_config(config)) == config,
{
}

/// A configuration from the API survives being stored, except that a missing number of streams
/// becomes the default.
pub proof fn api_config_survives_store(config: FullApiDestinationConfig)
    ensures
        full_config(stored_config(config)) == match config {
            FullApiDestinationConfig::BigQuery {
                project_id,
                dataset_id,
                service_account_key,
                max_staleness_mins,
                max_concurrent_streams: None,
            } => FullApiDestinationConfig::BigQuery {
                project_id,
                dataset_id,
                service_account_key,
                max_staleness_mins,
                max_concurrent_streams: Some(DEFAULT_MAX_CONCURRENT_STREAMS),
            },
            _ => config,
        },
{
}

/// What was encrypted under a key decrypts under that key, to the same configuration.
pub proof fn decrypt_undoes_encrypt(
    config: StoredDestinationConfig,
    key: EncryptionKey,
    encrypted: EncryptedStoredDestinationConfig,
    decrypted: Result<StoredDestinationConfig, DecryptionError>,
)
    requires
        config.is_encrypted_as(key, encrypted),
        encrypted.is_decrypted_as(key, decrypted),
    ensures
        decrypted is Ok,
        config.same(decrypted->Ok_0),
{
}

/// A secret that was encrypted under a key with one identifier is refused under a key with
/// another, and the error names both.
pub proof fn other_key_is_refused(
    config: EncryptedStoredDestinationConfig,
    key: EncryptionKey,
    decrypted: Result<StoredDestinationConfig, DecryptionError>,
)
    requires
        config is BigQuery,
        config->service_account_key.id != key.id,
        config.is_decrypted_as(key, decrypted),
    ensures
        decrypted == Err::<StoredDestinationConfig, _>(
            DecryptionError::MismatchedKeyId(config->service_account_key.id, key.id),
        ),
{
}

} // verus!
