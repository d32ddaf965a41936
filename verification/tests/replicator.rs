use std::collections::HashMap;

use etl_destinations::config::{DestinationConfig, SerializableSecretString};
use etl_destinations::replicator::{
    DestinationPlan, LoggedDestination, log_destination_config, start_replicator_with_config,
};

#[test]
fn replicators_start_with_their_destination() {
    assert!(matches!(
        start_replicator_with_config(DestinationConfig::Memory),
        DestinationPlan::Memory
    ));

    let plan = start_replicator_with_config(DestinationConfig::BigQuery {
        project_id: "project".to_string(),
        dataset_id: "dataset".to_string(),
        service_account_key: SerializableSecretString::from("key".to_string()),
        max_staleness_mins: Some(15),
        max_concurrent_streams: 4,
    });
    let DestinationPlan::BigQuery {
        project_id,
        dataset_id,
        service_account_key,
        max_staleness_mins,
        max_concurrent_streams,
    } = plan
    else {
        panic!("another destination");
    };
    assert_eq!(project_id, "project");
    assert_eq!(dataset_id, "dataset");
    assert_eq!(service_account_key.expose_secret(), "key");
    assert_eq!(max_staleness_mins, Some(15));
    assert_eq!(max_concurrent_streams, 4);

    let options = HashMap::from([("region".to_string(), "here".to_string())]);
    let plan = start_replicator_with_config(DestinationConfig::DeltaLake {
        base_uri: "s3://bucket".to_string(),
        storage_options: Some(options.clone()),
        partition_columns: None,
        optimize_after_commits: Some(3),
    });
    let DestinationPlan::DeltaLake(config) = plan else {
        panic!("another destination");
    };
    assert_eq!(config.base_uri, "s3://bucket");
    assert_eq!(config.storage_options, Some(options));
    assert!(!config.table_config.config_for_table_name("any").append_only);
}

#[test]
fn secrets_of_a_destination_are_not_logged() {
    assert!(matches!(
        log_destination_config(&DestinationConfig::Memory),
        LoggedDestination::Memory
    ));
    let config = DestinationConfig::BigQuery {
        project_id: "project".to_string(),
        dataset_id: "dataset".to_string(),
        service_account_key: SerializableSecretString::from("hidden".to_string()),
        max_staleness_mins: Some(15),
        max_concurrent_streams: 4,
    };
    let logged = log_destination_config(&config);
    assert!(matches!(
        logged,
        LoggedDestination::BigQuery {
            project_id: "project",
            dataset_id: "dataset",
            max_staleness_mins: Some(15),
            max_concurrent_streams: 4,
        }
    ));
    assert!(!format!("{logged:?}").contains("hidden"));
    let config = DestinationConfig::DeltaLake {
        base_uri: "s3://bucket".to_string(),
        storage_options: Some(HashMap::from([("key".to_string(), "hidden".to_string())])),
        partition_columns: None,
        optimize_after_commits: None,
    };
    let logged = log_destination_config(&config);
    assert!(matches!(logged, LoggedDestination::DeltaLake { base_uri: "s3://bucket" }));
    assert!(!format!("{logged:?}").contains("hidden"));
}
