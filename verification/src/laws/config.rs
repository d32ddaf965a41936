//! Configurations keep what was configured on all their ways.

use std::sync::Arc;

use vstd::prelude::*;

use crate::config::encryption::{
    Decrypt, DecryptionError, Encrypt, EncryptedValue, EncryptionError, EncryptionKey,
};
use crate::config::{
    DestinationConfig, EncryptedStoredDestinationConfig, FullApiDestinationConfig,
    StoredDestinationConfig,
};
use crate::deltalake::config::{DeltaTableConfig, TableConfigs, WriterProperties};
use crate::replicator::{
    DestinationPlan, LoggedDestination, log_destination_config, start_replicator_with_config,
};

verus! {

/// The configuration that a replicator gets has every field of the stored one.
pub proof fn replicators_get_what_is_stored(
    stored: StoredDestinationConfig,
    config: DestinationConfig,
)
    requires
        call_ensures(StoredDestinationConfig::into_etl_config, (stored,), config),
    ensures
        config is Memory <==> stored is Memory,
        config is BigQuery <==> stored is BigQuery,
        config is DeltaLake <==> stored is DeltaLake,
        stored is BigQuery ==> {
            &&& config->project_id == stored->project_id
            &&& config->dataset_id == stored->dataset_id
            &&& config->service_account_key == stored->service_account_key
            &&& config->max_staleness_mins == stored->max_staleness_mins
            &&& config->max_concurrent_streams == stored->max_concurrent_streams
        },
        stored is DeltaLake ==> {
            &&& config->base_uri == stored->base_uri
            &&& config->storage_options == stored->storage_options
            &&& config->partition_columns == stored->partition_columns
            &&& config->optimize_after_commits == stored->optimize_after_commits
        },
{
}

/// Two stored configurations from which a replicator gets the same one are equal.
pub proof fn stored_configs_are_told_apart(
    left: StoredDestinationConfig,
    right: StoredDestinationConfig,
    config: DestinationConfig,
)
    requires
        call_ensures(StoredDestinationConfig::into_etl_config, (left,), config),
        call_ensures(StoredDestinationConfig::into_etl_config, (right,), config),
    ensures
        left == right,
{
    replicators_get_what_is_stored(left, config);
    replicators_get_what_is_stored(right, config);
}

/// The API shows every field of a stored configuration.
pub proof fn the_api_shows_what_is_stored(
    stored: StoredDestinationConfig,
    full: FullApiDestinationConfig,
)
    requires
        call_ensures(
            <FullApiDestinationConfig as From<StoredDestinationConfig>>::from,
            (stored,),
            full,
        ),
    ensures
        full is Memory <==> stored is Memory,
        full is BigQuery <==> stored is BigQuery,
        full is DeltaLake <==> stored is DeltaLake,
        stored is BigQuery ==> {
            &&& full->project_id == stored->project_id
            &&& full->dataset_id == stored->dataset_id
            &&& full->service_account_key == stored->service_account_key
            &&& full->max_staleness_mins == stored->max_staleness_mins
            &&& full->max_concurrent_streams == Some(stored->max_concurrent_streams)
        },
        stored is DeltaLake ==> {
            &&& full->base_uri == stored->base_uri
            &&& full->storage_options == stored->storage_options
            &&& full->partition_columns == stored->partition_columns
            &&& full->optimize_after_commits == stored->optimize_after_commits
        },
{
}

/// Every field of a configuration from the API is stored. Where no number of streams is given,
/// there are eight.
pub proof fn what_the_api_takes_is_stored(
    full: FullApiDestinationConfig,
    stored: StoredDestinationConfig,
)
    requires
        call_ensures(
            <StoredDestinationConfig as From<FullApiDestinationConfig>>::from,
            (full,),
            stored,
        ),
    ensures
        full is Memory <==> stored is Memory,
        full is BigQuery <==> stored is BigQuery,
        full is DeltaLake <==> stored is DeltaLake,
        full is BigQuery ==> {
            &&& stored->project_id == full->project_id
            &&& stored->dataset_id == full->dataset_id
            &&& stored->service_account_key == full->service_account_key
            &&& stored->max_staleness_mins == full->max_staleness_mins
            &&& full->max_concurrent_streams is Some ==> Some(stored->max_concurrent_streams)
                == full->max_concurrent_streams
            &&& full->max_concurrent_streams is None ==> stored->max_concurrent_streams == 8
        },
        full is DeltaLake ==> {
            &&& stored->base_uri == full->base_uri
            &&& stored->storage_options == full->storage_options
            &&& stored->partition_columns == full->partition_columns
            &&& stored->optimize_after_commits == full->optimize_after_commits
        },
{
}

/// What is stored encrypted has every field of the configuration but the secret, and the secret
/// comes back under the key.
pub proof fn encryption_keeps_every_field(
    config: StoredDestinationConfig,
    key: EncryptionKey,
    encrypted: EncryptedStoredDestinationConfig,
)
    requires
        call_ensures(
            <StoredDestinationConfig as Encrypt<EncryptedStoredDestinationConfig>>::encrypt,
            (config, &key),
            Ok::<_, EncryptionError>(encrypted),
        ),
    ensures
        config is Memory <==> encrypted is Memory,
        config is BigQuery <==> encrypted is BigQuery,
        config is DeltaLake <==> encrypted is DeltaLake,
        config is BigQuery ==> {
            &&& encrypted->project_id == config->project_id
            &&& encrypted->dataset_id == config->dataset_id
            &&& encrypted->max_staleness_mins == config->max_staleness_mins
            &&& encrypted->max_concurrent_streams == config->max_concurrent_streams
            &&& encrypted->service_account_key.id == key.id
            &&& key.key@.len() == 32
        },
        config is DeltaLake ==> {
            &&& encrypted->base_uri == config->base_uri
            &&& encrypted->storage_options == config->storage_options
            &&& encrypted->partition_columns == config->partition_columns
            &&& encrypted->optimize_after_commits == config->optimize_after_commits
        },
{
}

/// What was encrypted under a key comes back under it: every field, and the text of the secret.
pub proof fn decryption_gives_back_what_was_encrypted(
    config: StoredDestinationConfig,
    key: EncryptionKey,
    encrypted: EncryptedStoredDestinationConfig,
    decrypted: Result<StoredDestinationConfig, DecryptionError>,
)
    requires
        call_ensures(
            <StoredDestinationConfig as Encrypt<EncryptedStoredDestinationConfig>>::encrypt,
            (config, &key),
            Ok::<_, EncryptionError>(encrypted),
        ),
        call_ensures(
            <EncryptedStoredDestinationConfig as Decrypt<StoredDestinationConfig>>::decrypt,
            (encrypted, &key),
            decrypted,
        ),
    ensures
        decrypted matches Ok(back) && {
            &&& back is Memory <==> config is Memory
            &&& back is BigQuery <==> config is BigQuery
            &&& back is DeltaLake <==> config is DeltaLake
            &&& config is BigQuery ==> {
                &&& back->project_id == config->project_id
                &&& back->dataset_id == config->dataset_id
                &&& back->service_account_key@ == config->service_account_key@
                &&& back->max_staleness_mins == config->max_staleness_mins
                &&& back->max_concurrent_streams == config->max_concurrent_streams
            }
            &&& config is DeltaLake ==> {
                &&& back->base_uri == config->base_uri
                &&& back->storage_options == config->storage_options
                &&& back->partition_columns == config->partition_columns
                &&& back->optimize_after_commits == config->optimize_after_commits
            }
        },
{
}

/// A configuration takes the secret that it is given and keeps every other field. It cannot be
/// stored where its secret could not be encrypted.
pub proof fn secrets_are_put_in_their_place(
    config: StoredDestinationConfig,
    secret: Result<EncryptedValue, EncryptionError>,
    encrypted: Result<EncryptedStoredDestinationConfig, EncryptionError>,
)
    requires
        call_ensures(
            StoredDestinationConfig::with_encrypted_secret,
            (config, secret),
            encrypted,
        ),
    ensures
        encrypted is Err <==> config is BigQuery && secret is Err,
        encrypted is Err ==> encrypted->Err_0 == secret->Err_0,
        encrypted matches Ok(e) ==> {
            &&& e is Memory <==> config is Memory
            &&& e is DeltaLake <==> config is DeltaLake
            &&& config is BigQuery ==> {
                &&& e is BigQuery
                &&& e->project_id == config->project_id
                &&& e->dataset_id == config->dataset_id
                &&& e->service_account_key == secret->Ok_0
                &&& e->max_staleness_mins == config->max_staleness_mins
                &&& e->max_concurrent_streams == config->max_concurrent_streams
            }
            &&& config is DeltaLake ==> {
                &&& e->base_uri == config->base_uri
                &&& e->storage_options == config->storage_options
                &&& e->partition_columns == config->partition_columns
                &&& e->optimize_after_commits == config->optimize_after_commits
            }
        },
{
}

/// A replicator starts with the destination that is configured, and with what is configured of it.
/// No Delta table has a configuration of its own.
pub proof fn replicators_start_as_configured(config: DestinationConfig, plan: DestinationPlan)
    requires
        call_ensures(start_replicator_with_config, (config,), plan),
    ensures
        config is Memory <==> plan is Memory,
        config is BigQuery <==> plan is BigQuery,
        config is DeltaLake <==> plan is DeltaLake,
        config is BigQuery ==> {
            &&& plan->project_id == config->project_id
            &&& plan->dataset_id == config->dataset_id
            &&& plan->service_account_key == config->service_account_key
            &&& plan->max_staleness_mins == config->max_staleness_mins
            &&& plan->max_concurrent_streams == config->max_concurrent_streams
        },
        config is DeltaLake ==> {
            &&& plan->DeltaLake_0.base_uri == config->base_uri
            &&& plan->DeltaLake_0.storage_options == config->storage_options
            &&& forall|name: Seq<char>| !plan->DeltaLake_0.table_config@.contains_key(name)
        },
{
}

/// What is logged of a destination is what is configured.
pub proof fn logs_tell_what_is_configured(config: DestinationConfig, logged: LoggedDestination<'_>)
    requires
        call_ensures(log_destination_config, (&config,), logged),
    ensures
        config is Memory <==> logged is Memory,
        config is BigQuery <==> logged is BigQuery,
        config is DeltaLake <==> logged is DeltaLake,
        config is BigQuery ==> {
            &&& logged->project_id@ == config->project_id@
            &&& logged->dataset_id@ == config->dataset_id@
            &&& logged->max_staleness_mins == config->max_staleness_mins
            &&& logged->max_concurrent_streams == config->max_concurrent_streams
        },
        config is DeltaLake ==> logged->base_uri@ == config->base_uri@,
{
}

/// Files are written in the version and with the compression of their table.
pub proof fn files_are_written_as_configured(
    config: DeltaTableConfig,
    properties: WriterProperties,
)
    requires
        call_ensures(<WriterProperties as From<DeltaTableConfig>>::from, (config,), properties)
            || call_ensures(
            <WriterProperties as From<&DeltaTableConfig>>::from,
            (&config,),
            properties,
        ),
    ensures
        properties.writer_version == config.parquet_version,
        properties.compression == config.compression,
{
}

/// A table without a configuration takes changes, is compacted after a hundred commits and is not
/// ordered. A table with one is treated as it says.
pub proof fn tables_are_treated_as_configured(
    configs: TableConfigs,
    name: &str,
    found: Arc<DeltaTableConfig>,
)
    requires
        call_ensures(TableConfigs::config_for_table_name, (&configs, name), found),
    ensures
        configs@.contains_key(name@) ==> found == configs@[name@],
        !configs@.contains_key(name@) ==> {
            &&& !found.append_only
            &&& found.parquet_version is Parquet1
            &&& found.compression is Snappy
            &&& found.compact_after_commits matches Some(commits) && commits.number() == 100
            &&& found.z_order_columns is None
            &&& found.z_order_after_commits is None
        },
{
}

} // verus!
