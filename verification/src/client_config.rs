//! Client configuration: the validated shape the bootstrap layer hands
//! to the core, its validation rules, and the generated defaults.

use vstd::prelude::*;
use vstd::string::StringExecFns;
use crate::hex::{hex_string, spec_hex_chars};
use crate::crypto::thread_random_bytes;
use crate::endian::read_u64_be;

verus! {

/// Why a configuration is rejected.
#[derive(Debug, PartialEq, Eq)]
pub enum ConfigError {
    /// A field holds a value outside its allowed range.
    Invalid(String),
    /// A required field is empty or absent.
    Missing(String),
}

pub ghost enum ConfigErrorV {
    Invalid(Seq<char>),
    Missing(Seq<char>),
}

impl View for ConfigError {
    type V = ConfigErrorV;

    open spec fn view(&self) -> ConfigErrorV {
        match self {
            ConfigError::Invalid(s) => ConfigErrorV::Invalid(s@),
            ConfigError::Missing(s) => ConfigErrorV::Missing(s@),
        }
    }
}

/// The whole client configuration.
#[derive(Debug)]
pub struct ClientConfig {
    pub client: Client,
    pub server: Server,
    pub virtual_device: VirtualDevice,
    pub auth: Auth,
    pub monitor: Monitor,
}

/// The client's own identity and connection policy.
#[derive(Debug)]
pub struct Client {
    pub id: String,
    pub name: String,
    pub port: u16,
    pub key_file: String,
    pub enable_auto_connect: bool,
    pub reconnect_interval: u64,
    pub max_reconnect_attempts: u32,
}

/// Which server to reach and how patiently.
#[derive(Debug)]
pub struct Server {
    pub address: String,
    pub timeout: u64,
    pub enable_encryption: bool,
    pub enable_compression: bool,
}

/// The virtual interface the client presents.
#[derive(Debug)]
pub struct VirtualDevice {
    pub name: String,
    pub ip: String,
    pub subnet: String,
    pub gateway: String,
    pub mtu: u32,
    pub enable_ipv6: bool,
    pub ipv6_address: Option<String>,
    pub auto_config: bool,
}

/// Credentials and token persistence.
#[derive(Debug)]
pub struct Auth {
    pub username: Option<String>,
    pub password: Option<String>,
    pub token: Option<String>,
    pub token_file: String,
    pub enable_auto_login: bool,
    pub auth_timeout: u64,
}

/// Monitoring and statistics policy.
#[derive(Debug)]
pub struct Monitor {
    pub enable: bool,
    pub interval: u64,
    pub log_level: String,
    pub enable_stats: bool,
    pub stats_file: Option<String>,
    pub stats_interval: u64,
}

/// The first rule a client configuration breaks, checked in declaration
/// order; `None` when it is valid.
pub open spec fn spec_validate_client_config(c: &ClientConfig) -> Option<ConfigErrorV> {
    if c.client.id@.len() == 0 {
        Some(ConfigErrorV::Missing("client.id"@))
    } else if c.client.name@.len() == 0 {
        Some(ConfigErrorV::Missing("client.name"@))
    } else if c.client.port == 0 {
        Some(ConfigErrorV::Invalid("client.port must be greater than 0"@))
    } else if c.server.address@.len() == 0 {
        Some(ConfigErrorV::Missing("server.address"@))
    } else if c.virtual_device.name@.len() == 0 {
        Some(ConfigErrorV::Missing("virtual_device.name"@))
    } else if c.virtual_device.ip@.len() == 0 {
        Some(ConfigErrorV::Missing("virtual_device.ip"@))
    } else if c.virtual_device.subnet@.len() == 0 {
        Some(ConfigErrorV::Missing("virtual_device.subnet"@))
    } else if c.virtual_device.gateway@.len() == 0 {
        Some(ConfigErrorV::Missing("virtual_device.gateway"@))
    } else if c.auth.token_file@.len() == 0 {
        Some(ConfigErrorV::Missing("auth.token_file"@))
    } else if c.monitor.log_level@.len() == 0 {
        Some(ConfigErrorV::Missing("monitor.log_level"@))
    } else {
        None
    }
}

/// Checks a client configuration; accepted exactly when no field breaks
/// its rule, and rejected with the first broken rule otherwise.
pub fn validate_config(config: &ClientConfig) -> (r: Result<(), ConfigError>)
    ensures
        match r {
            Ok(()) => spec_validate_client_config(config) is None,
            Err(e) => spec_validate_client_config(config) == Some(e@),
        },
{
    if config.client.id.as_str().is_empty() {
        return Err(ConfigError::Missing(String::from_str("client.id")));
    }
    if config.client.name.as_str().is_empty() {
        return Err(ConfigError::Missing(String::from_str("client.name")));
    }
    if config.client.port == 0 {
        return Err(ConfigError::Invalid(String::from_str("client.port must be greater than 0")));
    }
    if config.server.address.as_str().is_empty() {
        return Err(ConfigError::Missing(String::from_str("server.address")));
    }
    if config.virtual_device.name.as_str().is_empty() {
        return Err(ConfigError::Missing(String::from_str("virtual_device.name")));
    }
    if config.virtual_device.ip.as_str().is_empty() {
        return Err(ConfigError::Missing(String::from_str("virtual_device.ip")));
    }
    if config.virtual_device.subnet.as_str().is_empty() {
        return Err(ConfigError::Missing(String::from_str("virtual_device.subnet")));
    }
    if config.virtual_device.gateway.as_str().is_empty() {
        return Err(ConfigError::Missing(String::from_str("virtual_device.gateway")));
    }
    if config.auth.token_file.as_str().is_empty() {
        return Err(ConfigError::Missing(String::from_str("auth.token_file")));
    }
    if config.monitor.log_level.as_str().is_empty() {
        return Err(ConfigError::Missing(String::from_str("monitor.log_level")));
    }
    Ok(())
}

/// Whether a persisted authorization token is still usable at `now`:
/// strictly before its expiry instant.
pub fn token_unexpired(now: i64, expires_at: i64) -> (r: bool)
    ensures
        r == (now < expires_at),
{
    now < expires_at
}

/// A fresh default configuration: every policy field at its default, the
/// client id and name drawn from the random source. Fails only when that
/// source does.
pub fn default_config() -> (r: Result<ClientConfig, crate::crypto::CryptoError>)
    ensures
        r matches Ok(c) ==> {
            &&& (exists|n: u64| c.client.id@ == "client_"@ + spec_hex_chars(n))
            &&& (exists|n: u64| c.client.name@ == "Client-"@ + spec_hex_chars(n))
            &&& c.client.port == 51820
            &&& c.client.key_file@ == "vpnet-client-key.json"@
            &&& c.client.enable_auto_connect == true
            &&& c.client.reconnect_interval == 5
            &&& c.client.max_reconnect_attempts == 10
            &&& c.server.address@ == "127.0.0.1:51820"@
            &&& c.server.timeout == 30
            &&& c.server.enable_encryption == true
            &&& c.server.enable_compression == true
            &&& c.virtual_device.name@ == "vpnet0"@
            &&& c.virtual_device.ip@ == "10.0.0.2"@
            &&& c.virtual_device.subnet@ == "255.255.255.0"@
            &&& c.virtual_device.gateway@ == "10.0.0.1"@
            &&& c.virtual_device.mtu == 1420
            &&& c.virtual_device.enable_ipv6 == false
            &&& c.virtual_device.ipv6_address is None
            &&& c.virtual_device.auto_config == true
            &&& c.auth.username is None
            &&& c.auth.password is None
            &&& c.auth.token is None
            &&& c.auth.token_file@ == "vpnet-token.json"@
            &&& c.auth.enable_auto_login == true
            &&& c.auth.auth_timeout == 60
            &&& c.monitor.enable == true
            &&& c.monitor.interval == 30
            &&& c.monitor.log_level@ == "info"@
            &&& c.monitor.enable_stats == true
            &&& c.monitor.stats_file matches Some(f) && f@ == "vpnet-stats.json"@
            &&& c.monitor.stats_interval == 60
        },
{
    let id_bytes = match thread_random_bytes(8) {
        Some(v) => v,
        None => {
            return Err(crate::crypto::CryptoError::KeyGenFailed);
        },
    };
    let name_bytes = match thread_random_bytes(8) {
        Some(v) => v,
        None => {
            return Err(crate::crypto::CryptoError::KeyGenFailed);
        },
    };
    let id_n = read_u64_be(&id_bytes, 0);
    let name_n = read_u64_be(&name_bytes, 0);
    let id_hex = hex_string(id_n);
    let name_hex = hex_string((name_n as u32) as u64);
    let id = String::from_str("client_").concat(id_hex.as_str());
    let name = String::from_str("Client-").concat(name_hex.as_str());
    Ok(
        ClientConfig {
            client: Client {
                id,
                name,
                port: 51820,
                key_file: String::from_str("vpnet-client-key.json"),
                enable_auto_connect: true,
                reconnect_interval: 5,
                max_reconnect_attempts: 10,
            },
            server: Server {
                address: String::from_str("127.0.0.1:51820"),
                timeout: 30,
                enable_encryption: true,
                enable_compression: true,
            },
            virtual_device: VirtualDevice {
                name: String::from_str("vpnet0"),
                ip: String::from_str("10.0.0.2"),
                subnet: String::from_str("255.255.255.0"),
                gateway: String::from_str("10.0.0.1"),
                mtu: 1420,
                enable_ipv6: false,
                ipv6_address: None,
                auto_config: true,
            },
            auth: Auth {
                username: None,
                password: None,
                token: None,
                token_file: String::from_str("vpnet-token.json"),
                enable_auto_login: true,
                auth_timeout: 60,
            },
            monitor: Monitor {
                enable: true,
                interval: 30,
                log_level: String::from_str("info"),
                enable_stats: true,
                stats_file: Some(String::from_str("vpnet-stats.json")),
                stats_interval: 60,
            },
        },
    )
}

} // verus!
