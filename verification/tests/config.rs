use std::collections::HashMap;

use aws_lc_rs::aead::{AES_256_GCM, Aad, RandomizedNonceKey};
use base64::Engine;
use base64::prelude::BASE64_STANDARD;
use etl_destinations::config::encryption::{
    Decrypt, DecryptionError, Encrypt, EncryptedValue, EncryptionError, EncryptionKey, decrypt_text,
    drawn_key, encrypt_text, generate_random_key, sealed_value,
};
use etl_destinations::config::{
    DestinationConfig, EncryptedStoredDestinationConfig, FullApiDestinationConfig,
    SerializableSecretString, StoredDestinationConfig,
};

fn bigquery() -> StoredDestinationConfig {
    StoredDestinationConfig::BigQuery {
        project_id: "test-project".to_string(),
        dataset_id: "test_dataset".to_string(),
        service_account_key: SerializableSecretString::from("{\"test\": \"key\"}".to_string()),
        max_staleness_mins: Some(15),
        max_concurrent_streams: 8,
    }
}

fn delta() -> StoredDestinationConfig {
    let mut options = HashMap::new();
    options.insert("region".to_string(), "here".to_string());
    StoredDestinationConfig::DeltaLake {
        base_uri: "s3://bucket".to_string(),
        storage_options: Some(options),
        partition_columns: None,
        optimize_after_commits: Some(7),
    }
}

fn key(id: u32) -> EncryptionKey {
    EncryptionKey { id, key: generate_random_key::<32>().unwrap() }
}

#[test]
fn test_stored_destination_config_encryption_decryption() {
    let config = bigquery();

    let key = EncryptionKey { id: 1, key: generate_random_key::<32>().unwrap() };

    let encrypted = config.clone().encrypt(&key).unwrap();
    let decrypted = encrypted.decrypt(&key).unwrap();

    match (config, decrypted) {
        (
            StoredDestinationConfig::BigQuery {
                project_id: p1,
                dataset_id: d1,
                service_account_key: key1,
                max_staleness_mins: staleness1,
                max_concurrent_streams: streams1,
            },
            StoredDestinationConfig::BigQuery {
                project_id: p2,
                dataset_id: d2,
                service_account_key: key2,
                max_staleness_mins: staleness2,
                max_concurrent_streams: streams2,
            },
        ) => {
            assert_eq!(p1, p2);
            assert_eq!(d1, d2);
            assert_eq!(staleness1, staleness2);
            assert_eq!(streams1, streams2);
            // Assert that service account key was encrypted and decrypted correctly
            assert_eq!(key1.expose_secret(), key2.expose_secret());
        }
        _ => panic!("Config types don't match"),
    }
}

#[test]
fn test_full_api_destination_config_conversion() {
    let full_config = FullApiDestinationConfig::BigQuery {
        project_id: "test-project".to_string(),
        dataset_id: "test_dataset".to_string(),
        service_account_key: SerializableSecretString::from("{\"test\": \"key\"}".to_string()),
        max_staleness_mins: Some(15),
        max_concurrent_streams: None,
    };

    let stored: StoredDestinationConfig = full_config.clone().into();
    let back_to_full: FullApiDestinationConfig = stored.into();

    match (full_config, back_to_full) {
        (
            FullApiDestinationConfig::BigQuery { project_id: p1, .. },
            FullApiDestinationConfig::BigQuery { project_id: p2, max_concurrent_streams, .. },
        ) => {
            assert_eq!(p1, p2);
            assert_eq!(max_concurrent_streams, Some(8));
        }
        _ => panic!("Config types don't match"),
    }
}

#[test]
fn memory_and_delta_configs_convert_both_ways() {
    let stored: StoredDestinationConfig = FullApiDestinationConfig::from(delta()).into();
    assert_eq!(format!("{stored:?}"), format!("{:?}", delta()));
    let stored: StoredDestinationConfig = FullApiDestinationConfig::Memory.into();
    assert!(matches!(stored, StoredDestinationConfig::Memory));
    let stored: StoredDestinationConfig = FullApiDestinationConfig::from(bigquery()).into();
    assert!(matches!(
        stored,
        StoredDestinationConfig::BigQuery { max_concurrent_streams: 8, max_staleness_mins: Some(15), .. }
    ));
}

#[test]
fn the_replicator_gets_the_same_config() {
    assert!(matches!(StoredDestinationConfig::Memory.into_etl_config(), DestinationConfig::Memory));
    match bigquery().into_etl_config() {
        DestinationConfig::BigQuery { project_id, dataset_id, service_account_key, .. } => {
            assert_eq!(project_id, "test-project");
            assert_eq!(dataset_id, "test_dataset");
            assert_eq!(service_account_key.expose_secret(), "{\"test\": \"key\"}");
        }
        _ => panic!("Config types don't match"),
    }
    match delta().into_etl_config() {
        DestinationConfig::DeltaLake { base_uri, storage_options, optimize_after_commits, .. } => {
            assert_eq!(base_uri, "s3://bucket");
            assert_eq!(storage_options.unwrap()["region"], "here");
            assert_eq!(optimize_after_commits, Some(7));
        }
        _ => panic!("Config types don't match"),
    }
}

#[test]
fn configs_without_secrets_are_stored_as_they_are() {
    let key = EncryptionKey { id: 1, key: Vec::new() };
    let encrypted = delta().encrypt(&key).unwrap();
    assert!(matches!(&encrypted, EncryptedStoredDestinationConfig::DeltaLake { .. }));
    assert_eq!(format!("{:?}", encrypted.decrypt(&key).unwrap()), format!("{:?}", delta()));
    let encrypted = StoredDestinationConfig::Memory.encrypt(&key).unwrap();
    assert!(matches!(encrypted.decrypt(&key), Ok(StoredDestinationConfig::Memory)));
    assert_eq!(bigquery().encrypt(&key).unwrap_err(), EncryptionError::Unspecified);
}

#[test]
fn each_decryption_error_has_its_cause() {
    let first = key(1);
    let encrypted = encrypt_text("secret".to_string(), &first).unwrap();
    assert_eq!(encrypted.id, 1);
    assert_ne!(encrypted.value, "secret");

    let second = EncryptionKey { id: 2, key: first.key.clone() };
    assert_eq!(
        decrypt_text(encrypted.clone(), &second),
        Err(DecryptionError::MismatchedKeyId(1, 2))
    );
    assert_eq!(decrypt_text(encrypted.clone(), &key(1)), Err(DecryptionError::Unspecified));
    let broken = EncryptedValue { value: "*".to_string(), ..encrypted.clone() };
    assert_eq!(decrypt_text(broken, &first), Err(DecryptionError::Base64Decode));
    let broken = EncryptedValue { nonce: "*".to_string(), ..encrypted.clone() };
    assert_eq!(decrypt_text(broken, &first), Err(DecryptionError::Base64Decode));
    assert_eq!(decrypt_text(encrypted, &first), Ok("secret".to_string()));
}

#[test]
fn bytes_that_are_no_text_are_not_decrypted() {
    let key = key(3);
    let sealing_key = RandomizedNonceKey::new(&AES_256_GCM, &key.key).unwrap();
    let mut message = vec![0xff, 0xfe];
    let nonce = sealing_key.seal_in_place_append_tag(Aad::empty(), &mut message).unwrap();
    let encrypted = EncryptedValue {
        id: 3,
        nonce: BASE64_STANDARD.encode(nonce.as_ref()),
        value: BASE64_STANDARD.encode(&message),
    };
    assert_eq!(decrypt_text(encrypted, &key), Err(DecryptionError::FromUtf8));
}

#[test]
fn random_keys_have_their_length() {
    assert_eq!(generate_random_key::<16>().unwrap().len(), 16);
    assert_ne!(generate_random_key::<32>().unwrap(), generate_random_key::<32>().unwrap());
}

#[test]
fn keys_are_the_bytes_that_were_drawn() {
    assert_eq!(drawn_key(Some(vec![1, 2, 3])), Ok(vec![1, 2, 3]));
    assert_eq!(drawn_key(None), Err(EncryptionError::Unspecified));
}

#[test]
fn sealed_messages_are_kept_in_base64() {
    let value = sealed_value(3, Some((vec![0, 1, 2], vec![255, 254]))).unwrap();
    assert_eq!(value.id, 3);
    assert_eq!(value.nonce, "AAEC");
    assert_eq!(value.value, "//4=");
    assert_eq!(sealed_value(3, None).unwrap_err(), EncryptionError::Unspecified);
}

#[test]
fn secrets_stay_out_of_debug_output() {
    let secret = SerializableSecretString::from("hidden".to_string());
    assert!(!format!("{secret:?}").contains("hidden"));
    assert_eq!(secret.clone().expose_secret(), "hidden");
}

#[test]
fn encrypted_secrets_are_put_into_their_config() {
    let value = EncryptedValue {
        id: 7,
        nonce: "nonce".to_string(),
        value: "value".to_string(),
    };
    let encrypted = bigquery().with_encrypted_secret(Ok(value.clone())).unwrap();
    let StoredDestinationConfig::BigQuery { project_id: project, dataset_id: dataset, .. } =
        bigquery()
    else {
        panic!("another destination");
    };
    let EncryptedStoredDestinationConfig::BigQuery {
        project_id,
        dataset_id,
        service_account_key,
        ..
    } = encrypted
    else {
        panic!("another destination");
    };
    assert_eq!((project_id, dataset_id), (project, dataset));
    assert_eq!(service_account_key.id, 7);
    assert_eq!(service_account_key.nonce, "nonce");
    assert_eq!(service_account_key.value, "value");
    assert_eq!(
        bigquery().with_encrypted_secret(Err(EncryptionError::Unspecified)).unwrap_err(),
        EncryptionError::Unspecified
    );
    assert!(matches!(
        delta().with_encrypted_secret(Err(EncryptionError::Unspecified)),
        Ok(EncryptedStoredDestinationConfig::DeltaLake { .. })
    ));
    assert!(matches!(
        StoredDestinationConfig::Memory.with_encrypted_secret(Ok(value)),
        Ok(EncryptedStoredDestinationConfig::Memory)
    ));
}
