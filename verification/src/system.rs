//! System-wide configuration.
use vstd::prelude::*;
use crate::config::ConfigError;
use crate::text::owned;

verus! {

/// System-wide configuration.
#[derive(Debug, Clone)]
pub struct SystemConfig {
    /// Enable multi-tenant mode.
    pub multi_tenant: bool,
    /// Artifact store configuration.
    pub artifact_store: Option<ArtifactStoreConfig>,
    /// Secret store configuration.
    pub secret_store: Option<SecretStoreConfig>,
    /// Executor configurations.
    pub executors: Vec<ExecutorConfig>,
    /// Deployer configurations.
    pub deployers: Vec<DeployerConfig>,
}

#[derive(Debug, Clone)]
pub struct ArtifactStoreConfig {
    pub backend: String,
    pub bucket: Option<String>,
    pub region: Option<String>,
}

#[derive(Debug, Clone)]
pub struct SecretStoreConfig {
    pub backend: String,
    pub project: Option<String>,
}

#[derive(Debug, Clone)]
pub struct ExecutorConfig {
    pub name: String,
    pub executor_type: String,
    pub namespace: Option<String>,
}

#[derive(Debug, Clone)]
pub struct DeployerConfig {
    pub name: String,
    pub deployer_type: String,
    pub context: Option<String>,
    pub allowed_namespaces: Vec<String>,
}

/// Parses a system configuration from KDL text. No form of it is read yet:
/// every text is answered with a missing field, "not yet implemented".
pub fn parse_system_config(kdl: &str) -> (r: Result<SystemConfig, ConfigError>)
    ensures
        r matches Err(ConfigError::MissingField(m)) && m@ == "not yet implemented"@,
{
    Err(ConfigError::MissingField(owned("not yet implemented")))
}

} // verus!
