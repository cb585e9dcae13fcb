use tpm_provider::error::{BuildError, BuildErrorKind};
use tpm_provider::secret::{get_hierarchy_auth, parse_secret};

#[test]
fn string_prefix_gives_the_rest_verbatim() {
    assert_eq!(parse_secret("str:password"), Ok(b"password".to_vec()));
}

#[test]
fn string_prefix_keeps_a_nested_prefix() {
    assert_eq!(parse_secret("str:hex:00"), Ok(b"hex:00".to_vec()));
}

#[test]
fn string_prefix_gives_utf8_bytes() {
    assert_eq!(parse_secret("str:clé€"), Ok("clé€".as_bytes().to_vec()));
    assert_eq!(
        parse_secret("str:clé€"),
        Ok(vec![0x63, 0x6c, 0xc3, 0xa9, 0xe2, 0x82, 0xac])
    );
}

#[test]
fn string_prefix_alone_gives_the_empty_secret() {
    assert_eq!(parse_secret("str:"), Ok(Vec::new()));
}

#[test]
fn hex_prefix_decodes_lower_case() {
    assert_eq!(parse_secret("hex:0aff10"), Ok(vec![0x0a, 0xff, 0x10]));
}

#[test]
fn hex_prefix_decodes_upper_and_mixed_case() {
    assert_eq!(parse_secret("hex:F9B4CA"), Ok(vec![0xf9, 0xb4, 0xca]));
    assert_eq!(parse_secret("hex:f9B4Ca"), Ok(vec![0xf9, 0xb4, 0xca]));
}

#[test]
fn hex_prefix_alone_gives_the_empty_secret() {
    assert_eq!(parse_secret("hex:"), Ok(Vec::new()));
}

#[test]
fn hex_result_differs_from_its_text() {
    let parsed = parse_secret("hex:3031").unwrap();
    assert_eq!(parsed, vec![0x30, 0x31]);
    assert_ne!(parsed, b"3031".to_vec());
}

#[test]
fn odd_length_hex_is_a_decoding_error() {
    assert_eq!(parse_secret("hex:abc"), Err(BuildError::InvalidHexHierarchyAuth));
    assert_eq!(parse_secret("hex:0"), Err(BuildError::InvalidHexHierarchyAuth));
}

#[test]
fn non_hex_text_is_a_decoding_error() {
    assert_eq!(parse_secret("hex:zz"), Err(BuildError::InvalidHexHierarchyAuth));
    assert_eq!(parse_secret("hex:0g"), Err(BuildError::InvalidHexHierarchyAuth));
    assert_eq!(parse_secret("hex:12 4"), Err(BuildError::InvalidHexHierarchyAuth));
    assert_eq!(parse_secret("hex:0x12"), Err(BuildError::InvalidHexHierarchyAuth));
}

#[test]
fn non_ascii_text_after_hex_is_a_decoding_error() {
    assert_eq!(parse_secret("hex:é"), Err(BuildError::InvalidHexHierarchyAuth));
    assert_eq!(parse_secret("hex:aé"), Err(BuildError::InvalidHexHierarchyAuth));
}

#[test]
fn decoding_error_is_a_configuration_error() {
    assert_eq!(
        BuildError::InvalidHexHierarchyAuth.kind(),
        BuildErrorKind::Configuration
    );
    assert_eq!(
        BuildError::MissingHierarchyAuth.kind(),
        BuildErrorKind::Configuration
    );
}

#[test]
fn bare_text_is_the_secret() {
    assert_eq!(parse_secret("password"), Ok(b"password".to_vec()));
    assert_eq!(parse_secret(""), Ok(Vec::new()));
    assert_eq!(parse_secret("str"), Ok(b"str".to_vec()));
    assert_eq!(parse_secret("hex"), Ok(b"hex".to_vec()));
    assert_eq!(parse_secret("0aff"), Ok(b"0aff".to_vec()));
}

#[test]
fn prefixes_are_case_sensitive() {
    assert_eq!(parse_secret("HEX:0a"), Ok(b"HEX:0a".to_vec()));
    assert_eq!(parse_secret("Str:abc"), Ok(b"Str:abc".to_vec()));
    assert_eq!(parse_secret("hex;zz"), Ok(b"hex;zz".to_vec()));
}

#[test]
fn prefix_must_come_first() {
    assert_eq!(parse_secret(" hex:0a"), Ok(b" hex:0a".to_vec()));
    assert_eq!(parse_secret("éhex:0a"), Ok("éhex:0a".as_bytes().to_vec()));
}

#[test]
fn hex_round_trip() {
    let secrets: Vec<Vec<u8>> = vec![
        Vec::new(),
        vec![0x00],
        vec![0xff],
        vec![0x01, 0x23, 0x45, 0x67, 0x89, 0xab, 0xcd, 0xef],
        (0u8..=255).collect(),
    ];
    for secret in secrets {
        let text = format!("hex:{}", hex::encode(&secret));
        assert_eq!(parse_secret(&text), Ok(secret.clone()));
        let upper = format!("hex:{}", hex::encode_upper(&secret));
        assert_eq!(parse_secret(&upper), Ok(secret));
    }
}

#[test]
fn string_round_trip() {
    for text in ["", "a", "password", "with space", "hex:00", "str:", "ünï©ødé", "日本語"] {
        let configured = format!("str:{}", text);
        assert_eq!(parse_secret(&configured), Ok(text.as_bytes().to_vec()));
    }
}

#[test]
fn missing_secret_is_an_error() {
    let mut field: Option<String> = None;
    assert_eq!(
        get_hierarchy_auth(&mut field),
        Err(BuildError::MissingHierarchyAuth)
    );
    assert_eq!(field, None);
}

#[test]
fn field_is_erased_after_success() {
    let mut field = Some(String::from("hex:0102"));
    assert_eq!(get_hierarchy_auth(&mut field), Ok(vec![0x01, 0x02]));
    assert_eq!(field, None);

    let mut field = Some(String::from("str:secret"));
    assert_eq!(get_hierarchy_auth(&mut field), Ok(b"secret".to_vec()));
    assert_eq!(field, None);

    let mut field = Some(String::from("secret"));
    assert_eq!(get_hierarchy_auth(&mut field), Ok(b"secret".to_vec()));
    assert_eq!(field, None);
}

#[test]
fn field_is_erased_after_failure() {
    let mut field = Some(String::from("hex:xyz"));
    assert_eq!(
        get_hierarchy_auth(&mut field),
        Err(BuildError::InvalidHexHierarchyAuth)
    );
    assert_eq!(field, None);
}

#[test]
fn second_read_finds_nothing() {
    let mut field = Some(String::from("str:once"));
    assert_eq!(get_hierarchy_auth(&mut field), Ok(b"once".to_vec()));
    assert_eq!(
        get_hierarchy_auth(&mut field),
        Err(BuildError::MissingHierarchyAuth)
    );
}
