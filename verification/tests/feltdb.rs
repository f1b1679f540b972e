use authboundry::feltdb::{
    AuthStateRepository, FeltDBConfig, FeltDBDeployment, FeltDBError, MustNotFallback,
};

#[test]
fn rejects_empty_local_path() {
    let config = FeltDBConfig {
        deployment: FeltDBDeployment::Local {
            path: String::new(),
        },
    };
    assert!(AuthStateRepository::new(config).is_err());
}

#[test]
fn rejects_empty_remote_url() {
    let config = FeltDBConfig {
        deployment: FeltDBDeployment::Remote {
            url: String::new(),
            credentials: None,
        },
    };
    assert!(AuthStateRepository::new(config).is_err());
}

#[test]
fn accepts_valid_local_path() {
    let config = FeltDBConfig {
        deployment: FeltDBDeployment::Local {
            path: "/var/authport/state".to_string(),
        },
    };
    assert!(AuthStateRepository::new(config).is_ok());
}

#[test]
fn accepts_valid_remote_url() {
    let config = FeltDBConfig {
        deployment: FeltDBDeployment::Remote {
            url: "https://feltdb.example.com".to_string(),
            credentials: None,
        },
    };
    assert!(AuthStateRepository::new(config).is_ok());
}

#[test]
fn validates_no_memory_fallback() {
    let config = FeltDBConfig {
        deployment: FeltDBDeployment::Local {
            path: "/var/authport/state".to_string(),
        },
    };
    let repo = AuthStateRepository::new(config).unwrap();
    assert!(repo.validate_no_memory_fallback().is_ok());
}

#[test]
fn empty_managed_endpoint_is_refused_and_browser_accepted() {
    let managed = FeltDBConfig {
        deployment: FeltDBDeployment::Managed {
            endpoint: String::new(),
        },
    };
    let error = AuthStateRepository::new(managed).err().unwrap();
    assert_eq!(error.message, "Managed FeltDB endpoint must not be empty");
    let browser = AuthStateRepository::new(FeltDBConfig {
        deployment: FeltDBDeployment::Browser,
    })
    .unwrap();
    assert!(matches!(browser.config().deployment, FeltDBDeployment::Browser));
    assert_eq!(FeltDBError::new("x").message, "x");
}
