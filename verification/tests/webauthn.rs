use outlook_for_linux::webauthn::{
    b64_decode, build_response, client_data_json, ctap_error, ctap_error_code, join_error,
    map_ctap_error, next_verification_step, no_device_error, KeyOption, SignMode, VerificationStep,
    plan_user_verification, prepare_assertion, resolve_key_verification,
    validate_origin_and_rpid, GetRequest, KeyUv, RawAssertion, UvPlan, WebAuthnError,
};

fn request(origin: &str, rp_id: &str, challenge: &str, allow: &[&str]) -> GetRequest {
    GetRequest {
        origin: origin.to_string(),
        rp_id: rp_id.to_string(),
        challenge: challenge.to_string(),
        allow_credentials: allow.iter().map(|s| s.to_string()).collect(),
        user_verification: None,
        cross_origin: false,
        pin: None,
    }
}

fn err_of<T>(r: Result<T, WebAuthnError>) -> WebAuthnError {
    match r {
        Ok(_) => panic!("expected an error"),
        Err(e) => e,
    }
}

#[test]
fn rpid_and_origin_rules() {
    // Real Entra shapes: exact host, and a parent domain of it.
    assert!(validate_origin_and_rpid("https://login.microsoftonline.com", "login.microsoftonline.com").is_ok());
    assert!(validate_origin_and_rpid("https://login.microsoftonline.com", "microsoftonline.com").is_ok());
    // Anything not on the allowlist, whatever the rpId.
    assert!(validate_origin_and_rpid("https://evil.example", "evil.example").is_err());
    assert!(validate_origin_and_rpid("http://login.microsoftonline.com", "login.microsoftonline.com").is_err());
    // Signing for an unrelated or absurdly broad rpId.
    assert!(validate_origin_and_rpid("https://login.microsoftonline.com", "example.com").is_err());
    assert!(validate_origin_and_rpid("https://login.microsoftonline.com", "com").is_err());
    // Suffix lookalike: rpId must be a dot-delimited parent, not a substring.
    assert!(validate_origin_and_rpid("https://login.microsoftonline.com", "onmicrosoftonline.com").is_err());
}

#[test]
fn refusal_messages() {
    let e = err_of(validate_origin_and_rpid("https://evil.example", "evil.example"));
    assert_eq!(e.code, "not-allowed");
    assert_eq!(e.message, "origin https://evil.example is not allowed");
    assert_eq!(e.pin_retries, None);
    let e = err_of(validate_origin_and_rpid("https://login.live.com", "microsoft.com"));
    assert_eq!(e.code, "not-allowed");
    assert_eq!(e.message, "rpId microsoft.com does not match origin https://login.live.com");
    assert!(validate_origin_and_rpid("https://login.live.com", "live.com").is_ok());
    assert!(validate_origin_and_rpid("https://login.microsoft.com", "microsoft.com").is_ok());
    assert!(validate_origin_and_rpid("https://login.microsoft.com", "").is_err());
    assert!(validate_origin_and_rpid("https://login.microsoft.com", ".microsoft.com").is_err());
}

#[test]
fn ctap_error_codes() {
    assert_eq!(ctap_error_code("CTAP2_ERR_PIN_INVALID"), "pin-invalid");
    assert_eq!(ctap_error_code("get_assertion: CTAP2_ERR_PIN_AUTH_INVALID"), "pin-invalid");
    assert_eq!(ctap_error_code("CTAP2_ERR_PIN_REQUIRED"), "pin-required");
    assert_eq!(ctap_error_code("CTAP2_ERR_PIN_NOT_SET"), "pin-required");
    assert_eq!(ctap_error_code("CTAP2_ERR_PUAT_REQUIRED"), "pin-required");
    assert_eq!(ctap_error_code("CTAP2_ERR_PIN_BLOCKED"), "pin-blocked");
    assert_eq!(ctap_error_code("CTAP2_ERR_PIN_AUTH_BLOCKED"), "pin-blocked");
    assert_eq!(ctap_error_code("CTAP2_ERR_UV_BLOCKED"), "pin-blocked");
    assert_eq!(ctap_error_code("CTAP2_ERR_NO_CREDENTIALS"), "no-credentials");
    assert_eq!(ctap_error_code("CTAP2_ERR_USER_ACTION_TIMEOUT"), "timeout");
    assert_eq!(ctap_error_code("CTAP2_ERR_ACTION_TIMEOUT"), "timeout");
    assert_eq!(ctap_error_code("CTAP2_ERR_KEEPALIVE_CANCEL"), "timeout");
    assert_eq!(ctap_error_code("CTAP2_ERR_OPERATION_DENIED"), "not-allowed");
    assert_eq!(ctap_error_code("device disconnected"), "internal");
    assert_eq!(ctap_error_code(""), "internal");
    // The first matching group wins.
    assert_eq!(ctap_error_code("NO_CREDENTIALS after PIN_BLOCKED"), "pin-blocked");
}

#[test]
fn ctap_errors_keep_message_and_retries() {
    let e = ctap_error("CTAP2_ERR_PIN_INVALID".to_string(), Some(2));
    assert_eq!(e.code, "pin-invalid");
    assert_eq!(e.message, "CTAP2_ERR_PIN_INVALID");
    assert_eq!(e.pin_retries, Some(2));
    let e = map_ctap_error(anyhow::Error::msg("CTAP2_ERR_NO_CREDENTIALS").context("get_assertion failed"), None);
    assert_eq!(e.code, "no-credentials");
    assert_eq!(e.message, "get_assertion failed: CTAP2_ERR_NO_CREDENTIALS");
    assert_eq!(e.pin_retries, None);
}

fn encoded(bytes: &[u8]) -> String {
    let raw = vec![RawAssertion {
        credential_id: bytes.to_vec(),
        auth_data: vec![],
        signature: vec![],
        user_id: vec![],
        user_name: String::new(),
        user_display_name: String::new(),
    }];
    build_response("", &raw).assertions[0].credential_id.clone()
}

#[test]
fn base64url_round_trip() {
    assert_eq!(encoded(b""), "");
    assert_eq!(encoded(b"f"), "Zg");
    assert_eq!(encoded(b"fo"), "Zm8");
    assert_eq!(encoded(b"foo"), "Zm9v");
    assert_eq!(encoded(&[0xfb, 0xff]), "-_8");
    for bytes in [vec![], vec![0u8], vec![1, 2], vec![0xff, 0xfe, 0xfd, 0xfc], (0..=255u8).collect()] {
        let text = encoded(&bytes);
        assert_eq!(b64_decode(&text, "challenge").unwrap(), bytes);
    }
    // Padding, a bad length, a foreign symbol, and set trailing bits are refused.
    assert!(b64_decode("Zg==", "challenge").is_err());
    assert!(b64_decode("Zm9vY", "challenge").is_err());
    assert!(b64_decode("Zm+v", "challenge").is_err());
    assert!(b64_decode("Zh", "challenge").is_err());
}

#[test]
fn bad_base64_errors() {
    assert_eq!(b64_decode("Zm9v", "challenge").unwrap(), b"foo".to_vec());
    let e = err_of(b64_decode("not base64!", "challenge"));
    assert_eq!(e.code, "bad-request");
    assert_eq!(e.message, "invalid base64url in challenge: Invalid symbol 32, offset 3.");
    let e = err_of(b64_decode("Zg==", "allowCredentials"));
    assert_eq!(e.message, "invalid base64url in allowCredentials: Invalid padding");
}

#[test]
fn prepare_checks_and_binds_the_origin() {
    let ok = request("https://login.microsoftonline.com", "login.microsoftonline.com", "Y2hhbGxlbmdl", &["AQID", "BAU"]);
    let p = match prepare_assertion(&ok) {
        Ok(p) => p,
        Err(e) => panic!("unexpected error {}", e.message),
    };
    assert_eq!(p.rp_id, "login.microsoftonline.com");
    assert_eq!(p.allow_ids, vec![vec![1u8, 2, 3], vec![4u8, 5]]);
    let v: serde_json::Value = serde_json::from_str(&p.client_data).unwrap();
    assert_eq!(v["type"], "webauthn.get");
    assert_eq!(v["challenge"], "Y2hhbGxlbmdl");
    assert_eq!(v["origin"], "https://login.microsoftonline.com");
    assert_eq!(v["crossOrigin"], false);
    assert_eq!(v.as_object().unwrap().len(), 4);

    let e = err_of(prepare_assertion(&request("https://evil.example", "evil.example", "AA", &[])));
    assert_eq!(e.code, "not-allowed");
    let e = err_of(prepare_assertion(&request("https://login.live.com", "live.com", "AA", &["AQID", "%%"])));
    assert_eq!(e.code, "bad-request");
    assert!(e.message.starts_with("invalid base64url in allowCredentials: "));
    let e = err_of(prepare_assertion(&request("https://login.live.com", "live.com", "A", &["AQID"])));
    assert_eq!(e.code, "bad-request");
    assert!(e.message.starts_with("invalid base64url in challenge: "));
}

#[test]
fn client_data_fields() {
    let text = client_data_json("abc", "https://login.live.com", true);
    let v: serde_json::Value = serde_json::from_str(&text).unwrap();
    assert_eq!(v["type"], "webauthn.get");
    assert_eq!(v["challenge"], "abc");
    assert_eq!(v["origin"], "https://login.live.com");
    assert_eq!(v["crossOrigin"], true);
}

#[test]
fn user_verification_plan() {
    assert!(matches!(plan_user_verification(&Some("1234".into()), &Some("required".into())), UvPlan::Pin(p) if p == "1234"));
    assert!(matches!(plan_user_verification(&None, &Some("discouraged".into())), UvPlan::WithoutPinAndUv));
    assert!(matches!(plan_user_verification(&None, &Some("required".into())), UvPlan::AskKey));
    assert!(matches!(plan_user_verification(&None, &None), UvPlan::AskKey));

    assert!(matches!(resolve_key_verification(&None, Some(true), Some(true)), Ok(KeyUv::BuiltIn)));
    let e = err_of(resolve_key_verification(&None, None, Some(true)));
    assert_eq!(e.code, "pin-required");
    assert_eq!(e.message, "security key requires its PIN");
    let e = err_of(resolve_key_verification(&Some("required".into()), Some(false), None));
    assert_eq!(e.code, "uv-unavailable");
    assert!(matches!(resolve_key_verification(&None, Some(false), Some(false)), Ok(KeyUv::WithoutPinAndUv)));
    assert!(matches!(resolve_key_verification(&Some("preferred".into()), None, None), Ok(KeyUv::WithoutPinAndUv)));
}

#[test]
fn response_encoding() {
    let raw = vec![
        RawAssertion {
            credential_id: vec![1, 2, 3],
            auth_data: vec![0xff],
            signature: vec![9, 9],
            user_id: vec![],
            user_name: "alice@example.com".into(),
            user_display_name: "Alice".into(),
        },
        RawAssertion {
            credential_id: vec![4],
            auth_data: vec![],
            signature: vec![],
            user_id: vec![7, 7, 7],
            user_name: String::new(),
            user_display_name: String::new(),
        },
    ];
    let r = build_response("{\"a\":1}", &raw);
    assert_eq!(r.client_data_json, "eyJhIjoxfQ");
    assert_eq!(b64_decode(&r.client_data_json, "clientDataJSON").unwrap(), b"{\"a\":1}".to_vec());
    assert_eq!(r.assertions.len(), 2);
    assert_eq!(r.assertions[0].credential_id, "AQID");
    assert_eq!(r.assertions[0].authenticator_data, "_w");
    assert_eq!(r.assertions[0].signature, "CQk");
    assert_eq!(r.assertions[0].user_handle, None);
    assert_eq!(r.assertions[0].user_name, "alice@example.com");
    assert_eq!(r.assertions[0].user_display_name, "Alice");
    assert_eq!(r.assertions[1].user_handle.as_deref(), Some("BwcH"));
    assert_eq!(r.assertions[1].authenticator_data, "");
}

#[test]
fn device_and_worker_errors() {
    let e = no_device_error("no HID device");
    assert_eq!(e.code, "no-device");
    assert_eq!(e.message, "no FIDO2 security key found: no HID device");
    assert_eq!(e.pin_retries, None);
    let e = join_error("panicked");
    assert_eq!(e.code, "internal");
    assert_eq!(e.message, "task join error: panicked");
}

#[test]
fn verification_exchange_order() {
    let step = |pin: Option<&str>, uv: Option<&str>, b: Option<Option<bool>>, p: Option<Option<bool>>| {
        next_verification_step(&pin.map(String::from), &uv.map(String::from), b, p)
    };
    assert!(matches!(step(Some("1234"), None, None, None), VerificationStep::Sign(SignMode::Pin(p)) if p == "1234"));
    assert!(matches!(step(None, Some("discouraged"), None, None), VerificationStep::Sign(SignMode::WithoutPinAndUv)));
    // The key's uv option first, then clientPin only without built-in verification.
    assert!(matches!(step(None, None, None, None), VerificationStep::Ask(KeyOption::Uv)));
    assert!(matches!(step(None, None, Some(Some(true)), None), VerificationStep::Sign(SignMode::AsIs)));
    assert!(matches!(step(None, None, Some(None), None), VerificationStep::Ask(KeyOption::ClientPin)));
    assert!(matches!(step(None, None, Some(Some(false)), None), VerificationStep::Ask(KeyOption::ClientPin)));
    match step(None, None, Some(Some(false)), Some(Some(true))) {
        VerificationStep::Fail(e) => assert_eq!(e.code, "pin-required"),
        _ => panic!("expected a refusal"),
    }
    match step(None, Some("required"), Some(None), Some(Some(false))) {
        VerificationStep::Fail(e) => assert_eq!(e.code, "uv-unavailable"),
        _ => panic!("expected a refusal"),
    }
    assert!(matches!(step(None, Some("preferred"), Some(None), Some(None)), VerificationStep::Sign(SignMode::WithoutPinAndUv)));
}
