//! Configuration of destinations.

pub mod api;
pub mod encryption;
pub mod secret;
pub mod shared;

pub use api::{
    EncryptedStoredDestinationConfig, FullApiDestinationConfig, StoredDestinationConfig,
};
pub use secret::SerializableSecretString;
pub use shared::DestinationConfig;
