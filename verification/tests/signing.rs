use maker_desk::signing::{
    build_query, endpoint_allowed, sign, signed_query, timestamp_ms, Credentials, SignError,
};


#[test]
fn production_and_testnet_endpoints_are_allowed() {
    assert!(endpoint_allowed("https://fapi.binance.com/fapi/v1/order").is_ok());
    assert!(endpoint_allowed("https://testnet.binancefuture.com/fapi/v1/order").is_ok());
}

#[test]
fn arbitrary_hosts_are_rejected() {
    for bad in [
        "https://evil.example/fapi/v1/order",
        "https://fapi.binance.com.evil.example/x",
        "http://localhost:8080/x",
        "https://binance.com.evil.example/",
    ] {
        assert!(
            endpoint_allowed(bad).is_err(),
            "{bad} 不应被允许——签名请求会把凭据发过去"
        );
    }
}

#[test]
fn malformed_url_is_rejected() {
    assert!(matches!(
        endpoint_allowed("not a url"),
        Err(SignError::InvalidUrl(_))
    ));
}

#[test]
fn signature_is_deterministic() {
    let payload = "symbol=ETHUSDC&side=BUY&timestamp=1785542400000";
    let a = sign("secret", payload);
    let b = sign("secret", payload);
    assert_eq!(a, b);
    assert_eq!(a.len(), 64, "HMAC-SHA256 的十六进制表示是 64 字符");
}

#[test]
fn different_secrets_produce_different_signatures() {
    let payload = "symbol=ETHUSDC";
    assert_ne!(sign("secret-a", payload), sign("secret-b", payload));
}

#[test]
fn different_payloads_produce_different_signatures() {
    assert_ne!(sign("secret", "a=1&b=2"), sign("secret", "a=2&b=1"));
}

#[test]
fn query_building_preserves_order() {
    let q = build_query(&[("symbol", "ETHUSDC".into()), ("side", "BUY".into())]);
    assert_eq!(q, "symbol=ETHUSDC&side=BUY");
}

#[test]
fn signed_query_includes_timestamp_and_signature() {
    let q = signed_query("s", vec![("symbol", "ETHUSDC".into())], 5000).unwrap();
    assert!(q.contains("symbol=ETHUSDC"));
    assert!(q.contains("timestamp="));
    assert!(q.contains("recvWindow=5000"));
    assert!(q.contains("&signature="));
}

#[test]
fn credentials_debug_hides_secrets() {
    let c = Credentials::new("my-api-key-12345", "my-secret-67890");
    let dbg = c.shown();
    assert!(
        !dbg.contains("my-api-key-12345"),
        "API Key 泄漏到 Debug 输出"
    );
    assert!(!dbg.contains("my-secret-67890"), "Secret 泄漏到 Debug 输出");
    assert!(dbg.contains("已隐藏"));
}

#[test]
fn signature_does_not_leak_secret() {
    let secret = "super-secret-value";
    let sig = sign(secret, "symbol=ETHUSDC");
    assert!(!sig.contains(secret));
    assert!(!sig.contains("secret"));
}

#[test]
fn from_env_requires_both_key_and_secret() {
    let empty = Credentials::new("", "");
    assert!(empty.api_key.is_empty());
    assert!(Credentials::from_values(Some(String::new()), Some(String::new())).is_none());
    assert!(Credentials::from_values(Some("key".to_string()), None).is_none());
    assert!(Credentials::from_values(None, Some("secret".to_string())).is_none());
    assert!(Credentials::from_values(Some("key".to_string()), Some(" ".to_string())).is_none());
    assert!(
        Credentials::from_values(Some("key".to_string()), Some("secret".to_string())).is_some()
    );
}

#[test]
fn timestamp_is_plausible() {
    let t = timestamp_ms().unwrap();
    assert!(t > 1_767_225_600_000, "时间戳看起来不对：{t}");
}
