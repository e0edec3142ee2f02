//! The deployment configuration of a function, as read from its
//! `config.yml`, and the WASI capabilities it grants.

use vstd::prelude::*;
use crate::text::owned;

verus! {

/// Whether and which host environment variables a function sees.
#[derive(Debug, Clone)]
pub struct EnvCapabilities {
    /// Inherit the whole host environment.
    pub inherit: bool,
    /// Host variables passed through by name.
    pub vars: Vec<String>,
}

/// The network access a function is granted.
#[derive(Debug, Clone, Copy, PartialEq, Eq, Structural)]
pub struct NetworkCapabilities {
    /// Outbound WASI HTTP.
    pub http: bool,
    pub tcp: bool,
    pub udp: bool,
    pub dns: bool,
}

/// A host directory made visible to the function.
#[derive(Debug, Clone)]
pub struct VolumeMount {
    pub host: String,
    pub guest: String,
    pub read_only: bool,
}

/// The WASI capabilities of a function.
#[derive(Debug, Clone)]
pub struct CapabilitiesConfig {
    /// Inherit the host's standard streams.
    pub stdio: bool,
    pub env: EnvCapabilities,
    pub network: NetworkCapabilities,
    pub filesystem: Vec<VolumeMount>,
}

impl Default for EnvCapabilities {
    fn default() -> (r: Self)
        ensures
            !r.inherit,
            r.vars@.len() == 0,
    {
        EnvCapabilities { inherit: false, vars: Vec::new() }
    }
}

impl Default for NetworkCapabilities {
    fn default() -> (r: Self)
        ensures
            !r.http && !r.tcp && !r.udp && !r.dns,
    {
        NetworkCapabilities { http: false, tcp: false, udp: false, dns: false }
    }
}

impl Default for CapabilitiesConfig {
    /// The sandbox a function gets when its configuration says nothing:
    /// standard streams only, no environment, no network, no directories.
    fn default() -> (r: Self)
        ensures
            r.stdio,
            !r.env.inherit,
            r.env.vars@.len() == 0,
            !r.network.http && !r.network.tcp && !r.network.udp && !r.network.dns,
            r.filesystem@.len() == 0,
    {
        CapabilitiesConfig {
            stdio: true,
            env: EnvCapabilities::default(),
            network: NetworkCapabilities::default(),
            filesystem: Vec::new(),
        }
    }
}

/// The configuration of one function.
#[derive(Debug, Clone)]
pub struct Config {
    pub name: String,
    pub language: String,
    pub entrypoint: String,
    pub entrypoint_function: String,
    pub port: u16,
    pub endpoint: String,
    pub method: String,
    /// The parameters, each entry a map from parameter names to type names,
    /// held as its pairs.
    pub payload: Vec<Vec<(String, String)>>,
    pub return_type: String,
    pub capabilities: CapabilitiesConfig,
}

/// The package under which a function's WIT is generated.
pub open spec fn package_of(name: Seq<char>) -> Seq<char> {
    "wdsm:"@ + name
}

/// The extraction settings for a function: package `wdsm:<name>`, world
/// `<name>`, exporting only the entry-point function.
pub fn frontend_config_for(config: &Config) -> (r: crate::frontends::FrontendConfig)
    ensures
        r.package_name@ == package_of(config.name@),
        r.world_name@ == config.name@,
        r.target_functions matches Some(v) && v@.len() == 1 && v@[0]@ == config.entrypoint_function@,
{
    let mut package_name = owned("wdsm:");
    package_name.append(config.name.as_str());
    let mut targets: Vec<String> = Vec::new();
    targets.push(owned(config.entrypoint_function.as_str()));
    crate::frontends::FrontendConfig {
        package_name: package_name,
        world_name: owned(config.name.as_str()),
        target_functions: Some(targets),
    }
}

} // verus!
