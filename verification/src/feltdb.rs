//! The semantic boundary between authority state and its FeltDB store. The
//! repository never falls back to in-memory state: a deployment that names
//! no place to store fails at construction.
use vstd::prelude::*;
use crate::text::owned;

verus! {

#[derive(Debug, Clone)]
pub struct FeltDBError {
    pub message: String,
}

impl FeltDBError {
    pub fn new(message: &str) -> (r: Self)
        ensures
            r.message@ == message@,
    {
        FeltDBError { message: owned(message) }
    }
}

#[derive(Debug, Clone)]
pub enum FeltDBDeployment {
    /// Local durable runtime.
    Local { path: String },
    /// Remote or self-hosted server.
    Remote { url: String, credentials: Option<String> },
    /// Managed deployment.
    Managed { endpoint: String },
    /// Browser-backed storage (IndexedDB).
    Browser,
}

/// The deployment is handed to the store unchanged.
#[derive(Debug, Clone)]
pub struct FeltDBConfig {
    pub deployment: FeltDBDeployment,
}

/// A store must fail closed: no silent fallback to memory.
pub trait MustNotFallback {
    fn validate_no_memory_fallback(&self) -> Result<(), FeltDBError>;
}

/// Why a deployment would degrade to memory: the place it names is empty.
pub open spec fn fallback_error(d: FeltDBDeployment) -> Option<Seq<char>> {
    match d {
        FeltDBDeployment::Local { path } => if path@.len() == 0 {
            Some("Local FeltDB path must not be empty"@)
        } else {
            None
        },
        FeltDBDeployment::Remote { url, .. } => if url@.len() == 0 {
            Some("Remote FeltDB URL must not be empty"@)
        } else {
            None
        },
        FeltDBDeployment::Managed { endpoint } => if endpoint@.len() == 0 {
            Some("Managed FeltDB endpoint must not be empty"@)
        } else {
            None
        },
        FeltDBDeployment::Browser => None,
    }
}

/// The semantic adapter for authentication state over FeltDB.
#[derive(Clone)]
pub struct AuthStateRepository {
    config: FeltDBConfig,
}

impl AuthStateRepository {
    /// A repository for `config`; refused where the deployment names an
    /// empty place to store.
    pub fn new(config: FeltDBConfig) -> (r: Result<Self, FeltDBError>)
        ensures
            match fallback_error(config.deployment) {
                Some(m) => r matches Err(e) && e.message@ == m,
                None => r matches Ok(repo) && repo.config_spec() == config,
            },
    {
        match Self::validate_not_fallback(&config) {
            Err(e) => Err(e),
            Ok(()) => Ok(AuthStateRepository { config }),
        }
    }

    pub closed spec fn config_spec(&self) -> FeltDBConfig {
        self.config
    }

    fn validate_not_fallback(config: &FeltDBConfig) -> (r: Result<(), FeltDBError>)
        ensures
            match fallback_error(config.deployment) {
                Some(m) => r matches Err(e) && e.message@ == m,
                None => r is Ok,
            },
    {
        match &config.deployment {
            FeltDBDeployment::Local { path } => {
                if path.as_str().unicode_len() == 0 {
                    return Err(FeltDBError::new("Local FeltDB path must not be empty"));
                }
                Ok(())
            },
            FeltDBDeployment::Remote { url, .. } => {
                if url.as_str().unicode_len() == 0 {
                    return Err(FeltDBError::new("Remote FeltDB URL must not be empty"));
                }
                Ok(())
            },
            FeltDBDeployment::Managed { endpoint } => {
                if endpoint.as_str().unicode_len() == 0 {
                    return Err(FeltDBError::new("Managed FeltDB endpoint must not be empty"));
                }
                Ok(())
            },
            FeltDBDeployment::Browser => Ok(()),
        }
    }

    /// The configuration the repository was created with.
    pub fn config(&self) -> (r: &FeltDBConfig)
        ensures
            *r == self.config_spec(),
    {
        &self.config
    }
}

impl MustNotFallback for AuthStateRepository {
    /// A repository is always durable.
    fn validate_no_memory_fallback(&self) -> (r: Result<(), FeltDBError>)
        ensures
            r is Ok,
    {
        Ok(())
    }
}

} // verus!
