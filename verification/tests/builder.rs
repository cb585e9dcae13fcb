use std::cell::RefCell;
use std::rc::Rc;
use tpm_provider::builder::{
    HashingAlgorithm, Hierarchy, ProviderBuilder, SessionParameters, ROOT_KEY_AUTH_SIZE,
    ROOT_KEY_SIZE,
};
use tpm_provider::cipher::CipherChoice;
use tpm_provider::error::{BuildError, BuildErrorKind};
use tpm_provider::key_attributes::{Algorithm, KeyAttributes, KeyType, UsageFlags};
use tpm_provider::key_info::{ApplicationIdentity, KeyInfoManagerClient, KeyRecord};
use tpm_provider::provider::{Provider, DEFAULT_PROVIDER_NAME, PROVIDER_UUID};

/// A device that understands locators starting with "mssim" and accepts the
/// ciphers it is made with.
struct MockDevice {
    ciphers: Vec<CipherChoice>,
    probe_opens: bool,
    session_opens: bool,
    events: Rc<RefCell<Vec<String>>>,
}

struct MockProbe {
    events: Rc<RefCell<Vec<String>>>,
}

impl Drop for MockProbe {
    fn drop(&mut self) {
        self.events.borrow_mut().push("probe closed".to_string());
    }
}

struct MockSession {
    parameters: SessionParameters<String>,
}

impl MockDevice {
    fn accepting(ciphers: &[CipherChoice]) -> MockDevice {
        MockDevice {
            ciphers: ciphers.to_vec(),
            probe_opens: true,
            session_opens: true,
            events: Rc::new(RefCell::new(Vec::new())),
        }
    }

    fn build(&self, builder: ProviderBuilder) -> Result<Provider<MockSession>, BuildError> {
        builder.build(
            |text: &String| {
                self.events.borrow_mut().push(format!("locator {}", text));
                if text.starts_with("mssim") {
                    Some(text.clone())
                } else {
                    None
                }
            },
            |_locator: String| {
                if self.probe_opens {
                    self.events.borrow_mut().push("probe opened".to_string());
                    Some(MockProbe {
                        events: self.events.clone(),
                    })
                } else {
                    None
                }
            },
            |_probe: &MockProbe, cipher: CipherChoice| {
                self.events.borrow_mut().push(format!("asked {:?}", cipher));
                self.ciphers.contains(&cipher)
            },
            |parameters: SessionParameters<String>| {
                if self.session_opens {
                    self.events.borrow_mut().push("session opened".to_string());
                    Some(MockSession { parameters })
                } else {
                    None
                }
            },
        )
    }

    fn events(&self) -> Vec<String> {
        self.events.borrow().clone()
    }
}

fn full_device() -> MockDevice {
    MockDevice::accepting(&[CipherChoice::Aes256Cfb, CipherChoice::Aes128Cfb])
}

fn complete_builder() -> ProviderBuilder {
    ProviderBuilder::new()
        .with_provider_name(DEFAULT_PROVIDER_NAME.to_string())
        .with_key_info_store(KeyInfoManagerClient::new())
        .with_tcti("mssim:host=localhost,port=2321")
        .with_owner_hierarchy_auth("hex:74706d5f70617373".to_string())
}

fn failure(r: Result<Provider<MockSession>, BuildError>) -> BuildError {
    match r {
        Ok(_) => panic!("the build succeeded"),
        Err(e) => e,
    }
}

#[test]
fn build_fails_without_owner_secret() {
    let device = full_device();
    let builder = ProviderBuilder::new()
        .with_provider_name(DEFAULT_PROVIDER_NAME.to_string())
        .with_key_info_store(KeyInfoManagerClient::new())
        .with_tcti("mssim:host=localhost,port=2321");
    let error = failure(device.build(builder));
    assert_eq!(error, BuildError::MissingHierarchyAuth);
    assert_eq!(error.kind(), BuildErrorKind::Configuration);
    assert!(device.events().is_empty());
}

#[test]
fn build_succeeds_without_endorsement_secret() {
    let device = full_device();
    let provider = device.build(complete_builder()).ok().unwrap();
    assert_eq!(provider.provider_identity().name, "tpm-provider");
    assert_eq!(provider.provider_identity().uuid, PROVIDER_UUID);
    let parameters = &provider.esapi_context().parameters;
    assert_eq!(parameters.tcti, "mssim:host=localhost,port=2321");
    assert_eq!(parameters.root_key_size, 2048);
    assert_eq!(parameters.root_key_size, ROOT_KEY_SIZE);
    assert_eq!(parameters.root_key_auth_size, 32);
    assert_eq!(parameters.root_key_auth_size, ROOT_KEY_AUTH_SIZE);
    assert_eq!(parameters.owner_hierarchy_auth, b"tpm_pass".to_vec());
    assert_eq!(parameters.endorsement_hierarchy_auth, None);
    assert_eq!(parameters.root_hierarchy, Hierarchy::Owner);
    assert_eq!(parameters.session_hash_alg, HashingAlgorithm::Sha256);
    assert_eq!(parameters.default_context_cipher, CipherChoice::Aes256Cfb);
}

#[test]
fn build_binds_the_endorsement_secret() {
    let device = full_device();
    let builder = complete_builder().with_endorsement_hierarchy_auth("str:endorse".to_string());
    let provider = device.build(builder).ok().unwrap();
    let parameters = &provider.esapi_context().parameters;
    assert_eq!(parameters.owner_hierarchy_auth, b"tpm_pass".to_vec());
    assert_eq!(
        parameters.endorsement_hierarchy_auth,
        Some(b"endorse".to_vec())
    );
}

#[test]
fn build_uses_the_negotiated_cipher() {
    let device = MockDevice::accepting(&[CipherChoice::Aes128Cfb]);
    let provider = device.build(complete_builder()).ok().unwrap();
    assert_eq!(
        provider.esapi_context().parameters.default_context_cipher,
        CipherChoice::Aes128Cfb
    );
}

#[test]
fn build_closes_the_probe_before_it_opens_the_session() {
    let device = MockDevice::accepting(&[CipherChoice::Aes128Cfb]);
    assert!(device.build(complete_builder()).is_ok());
    assert_eq!(
        device.events(),
        vec![
            "locator mssim:host=localhost,port=2321".to_string(),
            "probe opened".to_string(),
            "asked Aes256Cfb".to_string(),
            "asked Aes128Cfb".to_string(),
            "probe closed".to_string(),
            "locator mssim:host=localhost,port=2321".to_string(),
            "session opened".to_string(),
        ]
    );
}

#[test]
fn build_fails_on_malformed_owner_secret() {
    let device = full_device();
    let builder = complete_builder().with_owner_hierarchy_auth("hex:12345".to_string());
    let error = failure(device.build(builder));
    assert_eq!(error, BuildError::InvalidHexHierarchyAuth);
    assert_eq!(error.kind(), BuildErrorKind::Configuration);
    assert!(device.events().is_empty());
}

#[test]
fn build_fails_on_malformed_endorsement_secret() {
    let device = full_device();
    let builder = complete_builder().with_endorsement_hierarchy_auth("hex:nothex".to_string());
    let error = failure(device.build(builder));
    assert_eq!(error, BuildError::InvalidHexHierarchyAuth);
    assert_eq!(error.kind(), BuildErrorKind::Configuration);
    assert!(!device.events().contains(&"session opened".to_string()));
}

#[test]
fn build_fails_without_transport_locator() {
    let device = full_device();
    let builder = ProviderBuilder::new()
        .with_provider_name(DEFAULT_PROVIDER_NAME.to_string())
        .with_key_info_store(KeyInfoManagerClient::new())
        .with_owner_hierarchy_auth("password".to_string());
    let error = failure(device.build(builder));
    assert_eq!(error, BuildError::MissingTcti);
    assert_eq!(error.kind(), BuildErrorKind::Configuration);
}

#[test]
fn build_fails_on_malformed_transport_locator() {
    let device = full_device();
    let builder = complete_builder().with_tcti("nonsense");
    let error = failure(device.build(builder));
    assert_eq!(error, BuildError::InvalidTcti);
    assert_eq!(error.kind(), BuildErrorKind::Configuration);
    assert_eq!(device.events(), vec!["locator nonsense".to_string()]);
}

#[test]
fn build_fails_when_the_probe_does_not_open() {
    let mut device = full_device();
    device.probe_opens = false;
    let error = failure(device.build(complete_builder()));
    assert_eq!(error, BuildError::ContextInitialization);
    assert_eq!(error.kind(), BuildErrorKind::Configuration);
}

#[test]
fn build_fails_when_no_cipher_is_accepted() {
    let device = MockDevice::accepting(&[]);
    let error = failure(device.build(complete_builder()));
    assert_eq!(error, BuildError::CiphersNotSupported);
    assert_eq!(error.kind(), BuildErrorKind::Capability);
    assert!(!device.events().contains(&"session opened".to_string()));
}

#[test]
fn build_fails_without_provider_name() {
    let device = full_device();
    let builder = ProviderBuilder::new()
        .with_key_info_store(KeyInfoManagerClient::new())
        .with_tcti("mssim")
        .with_owner_hierarchy_auth("password".to_string());
    let error = failure(device.build(builder));
    assert_eq!(error, BuildError::MissingProviderName);
    assert_eq!(error.kind(), BuildErrorKind::Configuration);
    assert!(!device.events().contains(&"session opened".to_string()));
}

#[test]
fn build_fails_without_key_info_store() {
    let device = full_device();
    let builder = ProviderBuilder::new()
        .with_provider_name("tpm".to_string())
        .with_tcti("mssim")
        .with_owner_hierarchy_auth("password".to_string());
    let error = failure(device.build(builder));
    assert_eq!(error, BuildError::MissingKeyInfoStore);
    assert_eq!(error.kind(), BuildErrorKind::Configuration);
    assert!(!device.events().contains(&"session opened".to_string()));
}

#[test]
fn build_fails_when_the_session_does_not_open() {
    let mut device = full_device();
    device.session_opens = false;
    let error = failure(device.build(complete_builder()));
    assert_eq!(error, BuildError::ContextInitialization);
}

#[test]
fn missing_owner_secret_comes_before_every_other_failure() {
    let mut device = MockDevice::accepting(&[]);
    device.probe_opens = false;
    device.session_opens = false;
    let error = failure(device.build(ProviderBuilder::new()));
    assert_eq!(error, BuildError::MissingHierarchyAuth);
}

#[test]
fn missing_name_comes_before_missing_store() {
    let device = full_device();
    let builder = ProviderBuilder::new()
        .with_tcti("mssim")
        .with_owner_hierarchy_auth("password".to_string());
    assert_eq!(
        failure(device.build(builder)),
        BuildError::MissingProviderName
    );
}

#[test]
fn later_setting_replaces_the_earlier_one() {
    let device = full_device();
    let builder = complete_builder()
        .with_provider_name("second".to_string())
        .with_tcti("mssim:second")
        .with_owner_hierarchy_auth("str:second".to_string());
    let provider = device.build(builder).ok().unwrap();
    assert_eq!(provider.provider_identity().name, "second");
    assert_eq!(provider.esapi_context().parameters.tcti, "mssim:second");
    assert_eq!(
        provider.esapi_context().parameters.owner_hierarchy_auth,
        b"second".to_vec()
    );
}

#[test]
fn default_builder_has_nothing_configured() {
    let device = full_device();
    assert_eq!(
        failure(device.build(ProviderBuilder::default())),
        BuildError::MissingHierarchyAuth
    );
    let builder = ProviderBuilder::default().with_owner_hierarchy_auth("secret".to_string());
    assert_eq!(failure(device.build(builder)), BuildError::MissingTcti);
}

#[test]
fn built_provider_has_the_keys_of_the_store() {
    let device = full_device();
    let alice = ApplicationIdentity::new("alice".to_string());
    let stored = KeyRecord {
        attributes: KeyAttributes {
            key_type: KeyType::EccKeyPair,
            bits: 256,
            algorithm: Algorithm::Ecdsa,
            usage: UsageFlags {
                sign_hash: true,
                verify_hash: true,
                encrypt: false,
                decrypt: false,
            },
        },
        context: vec![7, 7, 7],
    };
    let mut store = KeyInfoManagerClient::new();
    store
        .insert(&alice, "signing".to_string(), stored.clone())
        .unwrap();
    let builder = complete_builder().with_key_info_store(store);
    let provider = device.build(builder).ok().unwrap();
    assert_eq!(
        provider.key_info_store().get(&alice, &"signing".to_string()),
        Some(&stored)
    );
}

#[test]
fn find_default_context_cipher_probes_the_configured_transport() {
    let builder = complete_builder();
    let seen = RefCell::new(Vec::new());
    let r = builder.find_default_context_cipher(
        &|text: &String| {
            seen.borrow_mut().push(text.clone());
            Some(7u8)
        },
        |locator: u8| Some(locator + 1),
        |probe: &u8, cipher: CipherChoice| *probe == 8 && cipher == CipherChoice::Aes128Cfb,
    );
    assert_eq!(r, Ok(CipherChoice::Aes128Cfb));
    assert_eq!(
        *seen.borrow(),
        vec!["mssim:host=localhost,port=2321".to_string()]
    );
}

#[test]
fn find_default_context_cipher_reports_each_failure() {
    let parse = |text: &String| if text == "good" { Some(()) } else { None };
    let without = ProviderBuilder::new();
    assert_eq!(
        without.find_default_context_cipher(&parse, |_: ()| Some(()), |_: &(), _| true),
        Err(BuildError::MissingTcti)
    );
    let bad = ProviderBuilder::new().with_tcti("bad");
    assert_eq!(
        bad.find_default_context_cipher(&parse, |_: ()| Some(()), |_: &(), _| true),
        Err(BuildError::InvalidTcti)
    );
    let good = ProviderBuilder::new().with_tcti("good");
    assert_eq!(
        good.find_default_context_cipher(&parse, |_: ()| None::<()>, |_: &(), _| true),
        Err(BuildError::ContextInitialization)
    );
    assert_eq!(
        good.find_default_context_cipher(&parse, |_: ()| Some(()), |_: &(), _| false),
        Err(BuildError::CiphersNotSupported)
    );
    assert_eq!(
        good.find_default_context_cipher(&parse, |_: ()| Some(()), |_: &(), _| true),
        Ok(CipherChoice::Aes256Cfb)
    );
}
