//! The server's settings: those of its configuration file, each of which an
//! environment variable may override.

use vstd::prelude::*;
use vstd::string::*;
use crate::error::Error;
use crate::text::same_text;

verus! {

/// Environment variable overriding the server's address.
pub const ENV_VAR_SERVER_ADDRESS: &'static str = "UPHOLI_SERVER_ADDRESS";
/// Environment variable overriding the path of the served files.
pub const ENV_VAR_SERVER_WWWROOT_PATH: &'static str = "UPHOLI_SERVER_WWWROOT_PATH";
/// Environment variable overriding the database connection string.
pub const ENV_VAR_DATABASE_CONNECTIONSTRING: &'static str = "UPHOLI_DATABASE_CONNECTIONSTRING";
/// Environment variable overriding the storage provider.
pub const ENV_VAR_STORAGE_PROVIDER: &'static str = "UPHOLI_STORAGE_PROVIDER";
/// Environment variable overriding the directory of stored photos.
pub const ENV_VAR_STORAGE_DIRECTORYPHOTOS: &'static str = "UPHOLI_STORAGE_DIRECTORYPHOTOS";
/// Environment variable overriding the Azure storage account name.
pub const ENV_VAR_STORAGE_AZURESTORAGEACCOUNTNAME: &'static str = "UPHOLI_STORAGE_AZURESTORAGEACCOUNTNAME";
/// Environment variable overriding the Azure storage account key.
pub const ENV_VAR_STORAGE_AZURESTORAGEACCOUNTKEY: &'static str = "UPHOLI_STORAGE_AZURESTORAGEACCOUNTKEY";

/// Where photos are stored.
#[derive(Debug, Clone, Copy, PartialEq, Eq, Structural)]
pub enum StorageProvider {
    Disk,
    Azure,
}

/// Web server settings.
#[derive(Debug, Clone, PartialEq, Eq)]
pub struct Server {
    pub address: String,
    pub wwwroot_path: String,
}

/// Database settings.
#[derive(Debug, Clone, PartialEq, Eq)]
pub struct Database {
    pub connection_string: String,
}

/// Storage settings.
#[derive(Debug, Clone, PartialEq, Eq)]
pub struct Storage {
    pub provider: StorageProvider,
    pub directory_photos: String,
    pub azure_storage_account_name: String,
    pub azure_storage_account_key: String,
}

/// Application settings.
#[derive(Debug, Clone, PartialEq, Eq)]
pub struct Settings {
    pub server: Server,
    pub database: Database,
    pub storage: Storage,
}

/// The values the environment overrides settings with, where it sets them.
#[derive(Debug, Clone, PartialEq, Eq)]
pub struct SettingsOverrides {
    pub server_address: Option<String>,
    pub server_wwwroot_path: Option<String>,
    pub database_connection_string: Option<String>,
    pub storage_provider: Option<String>,
    pub storage_directory_photos: Option<String>,
    pub storage_azure_storage_account_name: Option<String>,
    pub storage_azure_storage_account_key: Option<String>,
}

/// The provider a setting names: `Disk` or `Azure`.
pub open spec fn provider_named(name: Seq<char>) -> Option<StorageProvider> {
    if name == "Disk"@ {
        Some(StorageProvider::Disk)
    } else if name == "Azure"@ {
        Some(StorageProvider::Azure)
    } else {
        None
    }
}

impl StorageProvider {
    /// The provider a setting names.
    pub fn parse(name: &str) -> (r: Option<StorageProvider>)
        ensures
            r == provider_named(name@),
    {
        if same_text(name, "Disk") {
            Some(StorageProvider::Disk)
        } else if same_text(name, "Azure") {
            Some(StorageProvider::Azure)
        } else {
            None
        }
    }
}

/// A setting's value: the override where there is one.
pub open spec fn overridden(value: String, over: Option<String>) -> Seq<char> {
    match over {
        Some(o) => o@,
        None => value@,
    }
}

/// Whether the overrides can be applied: a storage provider they name is known.
pub open spec fn overrides_valid(overrides: SettingsOverrides) -> bool {
    overrides.storage_provider matches Some(p) ==> provider_named(p@) is Some
}

/// Whether `s` holds the settings of `base`, each overridden where
/// `overrides` sets it.
pub open spec fn configured(s: Settings, base: Settings, overrides: SettingsOverrides) -> bool {
    &&& s.server.address@ == overridden(base.server.address, overrides.server_address)
    &&& s.server.wwwroot_path@ == overridden(base.server.wwwroot_path, overrides.server_wwwroot_path)
    &&& s.database.connection_string@ == overridden(base.database.connection_string, overrides.database_connection_string)
    &&& s.storage.provider == (match overrides.storage_provider {
        Some(p) => provider_named(p@)->Some_0,
        None => base.storage.provider,
    })
    &&& s.storage.directory_photos@ == overridden(base.storage.directory_photos, overrides.storage_directory_photos)
    &&& s.storage.azure_storage_account_name@ == overridden(base.storage.azure_storage_account_name, overrides.storage_azure_storage_account_name)
    &&& s.storage.azure_storage_account_key@ == overridden(base.storage.azure_storage_account_key, overrides.storage_azure_storage_account_key)
}

/// Each setting of configured settings is the environment's value where the
/// environment sets it, and the configuration file's value where it does not;
/// a storage provider the environment names as `Disk` or `Azure` is that one.
pub proof fn lemma_environment_overrides(s: Settings, base: Settings, overrides: SettingsOverrides)
    requires
        configured(s, base, overrides),
    ensures
        match overrides.server_address {
            Some(v) => s.server.address@ == v@,
            None => s.server.address@ == base.server.address@,
        },
        match overrides.server_wwwroot_path {
            Some(v) => s.server.wwwroot_path@ == v@,
            None => s.server.wwwroot_path@ == base.server.wwwroot_path@,
        },
        match overrides.database_connection_string {
            Some(v) => s.database.connection_string@ == v@,
            None => s.database.connection_string@ == base.database.connection_string@,
        },
        match overrides.storage_provider {
            Some(v) => (v@ == "Disk"@ ==> s.storage.provider == StorageProvider::Disk)
                && (v@ == "Azure"@ ==> s.storage.provider == StorageProvider::Azure),
            None => s.storage.provider == base.storage.provider,
        },
        match overrides.storage_directory_photos {
            Some(v) => s.storage.directory_photos@ == v@,
            None => s.storage.directory_photos@ == base.storage.directory_photos@,
        },
        match overrides.storage_azure_storage_account_name {
            Some(v) => s.storage.azure_storage_account_name@ == v@,
            None => s.storage.azure_storage_account_name@ == base.storage.azure_storage_account_name@,
        },
        match overrides.storage_azure_storage_account_key {
            Some(v) => s.storage.azure_storage_account_key@ == v@,
            None => s.storage.azure_storage_account_key@ == base.storage.azure_storage_account_key@,
        },
{
    reveal_strlit("Disk");
    reveal_strlit("Azure");
    assert("Disk"@ != "Azure"@) by {
        assert("Disk"@.len() != "Azure"@.len());
    }
}

/// The value of a setting after an override.
fn override_value(value: &String, over: &Option<String>) -> (r: String)
    ensures
        r@ == overridden(*value, *over),
{
    match over {
        Some(o) => o.clone(),
        None => value.clone(),
    }
}

impl Settings {
    /// The settings of the configuration file, each overridden where the
    /// environment sets it. Fails when the environment names an unknown
    /// storage provider.
    pub fn try_new(base: &Settings, overrides: &SettingsOverrides) -> (r: Result<Settings, Error>)
        ensures
            r is Ok <==> overrides_valid(*overrides),
            r is Err ==> r == Err::<Settings, Error>(Error::InvalidSetting),
            r matches Ok(s) ==> configured(s, *base, *overrides),
    {
        let provider = match &overrides.storage_provider {
            Some(name) => match StorageProvider::parse(name.as_str()) {
                Some(p) => p,
                None => return Err(Error::InvalidSetting),
            },
            None => base.storage.provider,
        };
        Ok(Settings {
            server: Server {
                address: override_value(&base.server.address, &overrides.server_address),
                wwwroot_path: override_value(&base.server.wwwroot_path, &overrides.server_wwwroot_path),
            },
            database: Database {
                connection_string: override_value(&base.database.connection_string, &overrides.database_connection_string),
            },
            storage: Storage {
                provider,
                directory_photos: override_value(&base.storage.directory_photos, &overrides.storage_directory_photos),
                azure_storage_account_name: override_value(&base.storage.azure_storage_account_name, &overrides.storage_azure_storage_account_name),
                azure_storage_account_key: override_value(&base.storage.azure_storage_account_key, &overrides.storage_azure_storage_account_key),
            },
        })
    }

    /// The application settings; the environment must name a known storage
    /// provider, if it names one.
    pub fn new(base: Settings, overrides: SettingsOverrides) -> (s: Settings)
        requires
            overrides_valid(overrides),
        ensures
            configured(s, base, overrides),
    {
        match Settings::try_new(&base, &overrides) {
            Ok(s) => s,
            Err(_) => base,
        }
    }
}

} // verus!
