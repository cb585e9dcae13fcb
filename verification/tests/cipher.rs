use std::cell::RefCell;
use tpm_provider::cipher::{negotiate_cipher, CipherChoice};
use tpm_provider::error::{BuildError, BuildErrorKind};

#[test]
fn device_with_only_aes_128_gets_aes_128() {
    let asked = RefCell::new(Vec::new());
    let r = negotiate_cipher(&(), |_: &(), cipher: CipherChoice| {
        asked.borrow_mut().push(cipher);
        cipher == CipherChoice::Aes128Cfb
    });
    assert_eq!(r, Ok(CipherChoice::Aes128Cfb));
    assert_eq!(
        *asked.borrow(),
        vec![CipherChoice::Aes256Cfb, CipherChoice::Aes128Cfb]
    );
}

#[test]
fn device_with_neither_cipher_is_a_capability_error() {
    let asked = RefCell::new(Vec::new());
    let r = negotiate_cipher(&(), |_: &(), cipher: CipherChoice| {
        asked.borrow_mut().push(cipher);
        false
    });
    assert_eq!(r, Err(BuildError::CiphersNotSupported));
    assert_eq!(r.unwrap_err().kind(), BuildErrorKind::Capability);
    assert_eq!(
        *asked.borrow(),
        vec![CipherChoice::Aes256Cfb, CipherChoice::Aes128Cfb]
    );
}

#[test]
fn device_with_both_ciphers_gets_aes_256() {
    let asked = RefCell::new(Vec::new());
    let r = negotiate_cipher(&(), |_: &(), cipher: CipherChoice| {
        asked.borrow_mut().push(cipher);
        true
    });
    assert_eq!(r, Ok(CipherChoice::Aes256Cfb));
    assert_eq!(*asked.borrow(), vec![CipherChoice::Aes256Cfb]);
}

#[test]
fn device_with_only_aes_256_gets_aes_256() {
    let r = negotiate_cipher(&(), |_: &(), cipher: CipherChoice| {
        cipher == CipherChoice::Aes256Cfb
    });
    assert_eq!(r, Ok(CipherChoice::Aes256Cfb));
}

#[test]
fn probing_session_is_handed_to_each_question() {
    let probe = String::from("probe");
    let r = negotiate_cipher(&probe, |session: &String, cipher: CipherChoice| {
        assert_eq!(session, "probe");
        cipher == CipherChoice::Aes128Cfb
    });
    assert_eq!(r, Ok(CipherChoice::Aes128Cfb));
}
