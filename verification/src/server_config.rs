//! Server configuration: the validated shape the bootstrap layer hands
//! to the core, its validation rules, and the generated defaults.

use vstd::prelude::*;
use vstd::string::StringExecFns;
use crate::client_config::{ConfigError, ConfigErrorV};
use crate::crypto::{spec_base64, thread_random_bytes, CryptoError};
use crate::endian::read_u64_be;
use crate::hex::{hex_string, spec_hex_chars};

verus! {

/// The whole server configuration.
#[derive(Debug)]
pub struct ServerConfig {
    pub server: Server,
    pub virtual_device: VirtualDevice,
    pub node: Node,
    pub api: Api,
    pub web: Web,
    pub auth: Auth,
}

/// Bind address and worker policy.
#[derive(Debug)]
pub struct Server {
    pub bind: String,
    pub port: u16,
    pub workers: u32,
    pub timeout: u64,
}

/// The virtual interface the server presents.
#[derive(Debug)]
pub struct VirtualDevice {
    pub name: String,
    pub ip: String,
    pub subnet: String,
    pub gateway: String,
    pub mtu: u32,
    pub enable_ipv6: bool,
    pub ipv6_address: Option<String>,
}

/// The server's node identity and discovery policy.
#[derive(Debug)]
pub struct Node {
    pub id: String,
    pub name: String,
    pub key_file: String,
    pub auto_discovery: bool,
    pub discovery_interval: u64,
}

/// The query API surface.
#[derive(Debug)]
pub struct Api {
    pub bind: String,
    pub port: u16,
    pub enable_cors: bool,
    pub allowed_origins: Vec<String>,
    pub rate_limit: u32,
}

/// The administration web surface.
#[derive(Debug)]
pub struct Web {
    pub bind: String,
    pub port: u16,
    pub enable_tls: bool,
    pub tls_cert: Option<String>,
    pub tls_key: Option<String>,
    pub enable_compression: bool,
}

/// Authorization policy.
#[derive(Debug)]
pub struct Auth {
    pub enable: bool,
    pub secret_key: String,
    pub token_expiry: u64,
    pub allow_anonymous: bool,
    pub whitelist: Vec<String>,
    pub blacklist: Vec<String>,
}

/// The first rule a server configuration breaks, checked in declaration
/// order; `None` when it is valid.
pub open spec fn spec_validate_server_config(c: &ServerConfig) -> Option<ConfigErrorV> {
    if c.server.bind@.len() == 0 {
        Some(ConfigErrorV::Missing("server.bind"@))
    } else if c.server.port == 0 {
        Some(ConfigErrorV::Invalid("server.port must be greater than 0"@))
    } else if c.virtual_device.name@.len() == 0 {
        Some(ConfigErrorV::Missing("virtual_device.name"@))
    } else if c.virtual_device.ip@.len() == 0 {
        Some(ConfigErrorV::Missing("virtual_device.ip"@))
    } else if c.virtual_device.subnet@.len() == 0 {
        Some(ConfigErrorV::Missing("virtual_device.subnet"@))
    } else if c.virtual_device.gateway@.len() == 0 {
        Some(ConfigErrorV::Missing("virtual_device.gateway"@))
    } else if c.node.id@.len() == 0 {
        Some(ConfigErrorV::Missing("node.id"@))
    } else if c.node.name@.len() == 0 {
        Some(ConfigErrorV::Missing("node.name"@))
    } else if c.api.bind@.len() == 0 {
        Some(ConfigErrorV::Missing("api.bind"@))
    } else if c.api.port == 0 {
        Some(ConfigErrorV::Invalid("api.port must be greater than 0"@))
    } else if c.web.bind@.len() == 0 {
        Some(ConfigErrorV::Missing("web.bind"@))
    } else if c.web.port == 0 {
        Some(ConfigErrorV::Invalid("web.port must be greater than 0"@))
    } else if c.auth.secret_key@.len() == 0 {
        Some(ConfigErrorV::Missing("auth.secret_key"@))
    } else {
        None
    }
}

/// Checks a server configuration; accepted exactly when no field breaks
/// its rule, and rejected with the first broken rule otherwise.
pub fn validate_config(config: &ServerConfig) -> (r: Result<(), ConfigError>)
    ensures
        match r {
            Ok(()) => spec_validate_server_config(config) is None,
            Err(e) => spec_validate_server_config(config) == Some(e@),
        },
{
    if config.server.bind.as_str().is_empty() {
        return Err(ConfigError::Missing(String::from_str("server.bind")));
    }
    if config.server.port == 0 {
        return Err(ConfigError::Invalid(String::from_str("server.port must be greater than 0")));
    }
    if config.virtual_device.name.as_str().is_empty() {
        return Err(ConfigError::Missing(String::from_str("virtual_device.name")));
    }
    if config.virtual_device.ip.as_str().is_empty() {
        return Err(ConfigError::Missing(String::from_str("virtual_device.ip")));
    }
    if config.virtual_device.subnet.as_str().is_empty() {
        return Err(ConfigError::Missing(String::from_str("virtual_device.subnet")));
    }
    if config.virtual_device.gateway.as_str().is_empty() {
        return Err(ConfigError::Missing(String::from_str("virtual_device.gateway")));
    }
    if config.node.id.as_str().is_empty() {
        return Err(ConfigError::Missing(String::from_str("node.id")));
    }
    if config.node.name.as_str().is_empty() {
        return Err(ConfigError::Missing(String::from_str("node.name")));
    }
    if config.api.bind.as_str().is_empty() {
        return Err(ConfigError::Missing(String::from_str("api.bind")));
    }
    if config.api.port == 0 {
        return Err(ConfigError::Invalid(String::from_str("api.port must be greater than 0")));
    }
    if config.web.bind.as_str().is_empty() {
        return Err(ConfigError::Missing(String::from_str("web.bind")));
    }
    if config.web.port == 0 {
        return Err(ConfigError::Invalid(String::from_str("web.port must be greater than 0")));
    }
    if config.auth.secret_key.as_str().is_empty() {
        return Err(ConfigError::Missing(String::from_str("auth.secret_key")));
    }
    Ok(())
}

/// A fresh default configuration: every policy field at its default, the
/// node id and the authorization secret drawn from the random source.
/// Fails only when that source does.
pub fn default_config() -> (r: Result<ServerConfig, CryptoError>)
    ensures
        r matches Ok(c) ==> {
            &&& c.server.bind@ == "0.0.0.0"@
            &&& c.server.port == 51820
            &&& c.server.workers == 4
            &&& c.server.timeout == 30
            &&& c.virtual_device.name@ == "vpnet0"@
            &&& c.virtual_device.ip@ == "10.0.0.1"@
            &&& c.virtual_device.subnet@ == "255.255.255.0"@
            &&& c.virtual_device.gateway@ == "10.0.0.1"@
            &&& c.virtual_device.mtu == 1420
            &&& c.virtual_device.enable_ipv6 == false
            &&& c.virtual_device.ipv6_address is None
            &&& (exists|n: u64| c.node.id@ == "node_"@ + spec_hex_chars(n))
            &&& c.node.name@ == "VPNet Server"@
            &&& c.node.key_file@ == "vpnet-key.json"@
            &&& c.node.auto_discovery == true
            &&& c.node.discovery_interval == 60
            &&& c.api.bind@ == "0.0.0.0"@
            &&& c.api.port == 51821
            &&& c.api.enable_cors == true
            &&& c.api.allowed_origins@.len() == 1
            &&& c.api.allowed_origins@[0]@ == "*"@
            &&& c.api.rate_limit == 100
            &&& c.web.bind@ == "0.0.0.0"@
            &&& c.web.port == 51822
            &&& c.web.enable_tls == false
            &&& c.web.tls_cert is None
            &&& c.web.tls_key is None
            &&& c.web.enable_compression == true
            &&& c.auth.enable == true
            &&& (exists|k: Seq<u8>| k.len() == 32 && c.auth.secret_key@ == spec_base64(k))
            &&& c.auth.token_expiry == 86400
            &&& c.auth.allow_anonymous == false
            &&& c.auth.whitelist@.len() == 0
            &&& c.auth.blacklist@.len() == 0
        },
{
    let secret_bytes = match thread_random_bytes(32) {
        Some(v) => v,
        None => {
            return Err(CryptoError::KeyGenFailed);
        },
    };
    let secret_key = crate::crypto::base64_of(&secret_bytes);
    let id_bytes = match thread_random_bytes(8) {
        Some(v) => v,
        None => {
            return Err(CryptoError::KeyGenFailed);
        },
    };
    let id_n = read_u64_be(&id_bytes, 0);
    let id = String::from_str("node_").concat(hex_string(id_n).as_str());
    let mut allowed_origins: Vec<String> = Vec::new();
    allowed_origins.push(String::from_str("*"));
    Ok(
        ServerConfig {
            server: Server {
                bind: String::from_str("0.0.0.0"),
                port: 51820,
                workers: 4,
                timeout: 30,
            },
            virtual_device: VirtualDevice {
                name: String::from_str("vpnet0"),
                ip: String::from_str("10.0.0.1"),
                subnet: String::from_str("255.255.255.0"),
                gateway: String::from_str("10.0.0.1"),
                mtu: 1420,
                enable_ipv6: false,
                ipv6_address: None,
            },
            node: Node {
                id,
                name: String::from_str("VPNet Server"),
                key_file: String::from_str("vpnet-key.json"),
                auto_discovery: true,
                discovery_interval: 60,
            },
            api: Api {
                bind: String::from_str("0.0.0.0"),
                port: 51821,
                enable_cors: true,
                allowed_origins,
                rate_limit: 100,
            },
            web: Web {
                bind: String::from_str("0.0.0.0"),
                port: 51822,
                enable_tls: false,
                tls_cert: None,
                tls_key: None,
                enable_compression: true,
            },
            auth: Auth {
                enable: true,
                secret_key,
                token_expiry: 86400,
                allow_anonymous: false,
                whitelist: Vec::new(),
                blacklist: Vec::new(),
            },
        },
    )
}

} // verus!
