use maker_desk::client::{
    binance_error_fields, exchange_mode_for, parse_available_balance, BinanceClient, PublicStep,
    LOG_BODY_MAX_CHARS, PRODUCTION_URL, TESTNET_URL,
};
use maker_desk::decimal::Decimal;
use maker_desk::error::ExchangeError;
use maker_desk::mode::ServiceMode;
use maker_desk::signing::endpoint_allowed;

const NOW: i64 = 1_750_000_000_000;

fn dec(text: &str) -> Decimal {
    Decimal::parse(text).unwrap()
}


#[test]
fn public_client_accepts_official_endpoints() {
    assert!(BinanceClient::public(PRODUCTION_URL).is_ok());
    assert!(BinanceClient::public(TESTNET_URL).is_ok());
}

#[test]
fn public_client_rejects_unknown_hosts() {
    match BinanceClient::public("https://evil.example") {
        Ok(_) => panic!("非白名单主机不应被接受——签名请求会把凭据发过去"),
        Err(e) => {
            assert!(e.is_fatal(), "白名单失败是配置问题，属于致命错误：{e:?}");
            assert!(
                e.message().contains("evil.example"),
                "错误应指出主机：{e:?}"
            );
        }
    }
}

#[test]
fn signed_client_requires_credentials() {
    let c = BinanceClient::public(PRODUCTION_URL).unwrap();
    assert!(!c.is_signed());
    assert!(c.require_creds().is_err());
}

#[test]
fn base_url_trailing_slash_is_normalized() {
    let c = BinanceClient::public("https://fapi.binance.com/").unwrap();
    assert_eq!(c.base_url(), "https://fapi.binance.com");
}

#[test]
fn available_balance_is_read_per_asset() {
    let body = r#"[
        {"asset":"USDC","availableBalance":"1234.56"},
        {"asset":"USDT","availableBalance":"7890.12"}
    ]"#;
    assert_eq!(parse_available_balance(body, "USDC"), dec("1234.56"));
    assert_eq!(parse_available_balance(body, "USDT"), dec("7890.12"));
    assert_eq!(
        parse_available_balance(body, "BNB"),
        Decimal::zero(),
        "不存在的资产返回 0，不是两者之和"
    );
}

#[test]
fn balance_parsing_tolerates_malformed_input() {
    assert_eq!(parse_available_balance("not json", "USDC"), Decimal::zero());
    assert_eq!(parse_available_balance("[]", "USDC"), Decimal::zero());
    assert_eq!(
        parse_available_balance(r#"[{"asset":"USDC","availableBalance":"abc"}]"#, "USDC"),
        Decimal::zero()
    );
}

#[test]
fn paper_mode_has_no_exchange_client() {
    assert!(exchange_mode_for(ServiceMode::Paper).is_none());
    assert!(exchange_mode_for(ServiceMode::Live).is_some());
}


struct FakeUpstream {
    status: u16,
    retry_after: Option<&'static str>,
    body: &'static str,
    hits: usize,
}

impl FakeUpstream {
    fn always(status: u16, retry_after: Option<&'static str>, body: &'static str) -> Self {
        FakeUpstream { status, retry_after, body, hits: 0 }
    }

    fn get(
        &mut self,
        client: &mut BinanceClient,
        path: &str,
        query: &str,
        ttl_ms: i64,
        now: i64,
    ) -> Result<String, ExchangeError> {
        match client.begin_public(path, query, ttl_ms, now) {
            PublicStep::Answer(body) => Ok(body),
            PublicStep::Refused(e) => Err(e),
            PublicStep::Send { .. } => {
                self.hits += 1;
                let body =
                    client.finish(self.status, self.retry_after, self.body.to_string(), now)?;
                client.keep(path, query, &body, ttl_ms, now);
                Ok(body)
            }
        }
    }

    fn hits(&self) -> usize {
        self.hits
    }
}

fn client() -> BinanceClient {
    BinanceClient::public(PRODUCTION_URL).unwrap()
}

#[test]
fn rate_limit_arms_shared_cooldown_with_real_duration() {
    let mut up = FakeUpstream::always(
        418,
        Some("1234"),
        r#"{"code":-1003,"msg":"Way too much request weight used; IP banned until 1790354159999."}"#,
    );
    let mut c = client();

    let err = up.get(&mut c, "/fapi/v1/depth", "symbol=ETHUSDC", 0, NOW);
    match err {
        Err(ExchangeError::RateLimited { retry_after_ms }) => {
            assert_eq!(retry_after_ms, 1_234_000, "必须是响应头给的 1234 秒");
        }
        other => panic!("应是限流错误：{other:?}"),
    }
    let remaining = c.cooldown_remaining_ms(NOW).expect("冷却必须已生效");
    assert!(
        remaining > 1_000_000,
        "冷却应约 20 分钟，实际 {remaining}ms"
    );
}

#[test]
fn no_upstream_request_is_sent_during_cooldown() {
    let mut up = FakeUpstream::always(429, Some("600"), "too many requests");
    let mut c = client();

    assert!(
        up.get(&mut c, "/fapi/v1/depth", "symbol=ETHUSDC", 0, NOW)
            .is_err()
    );
    assert_eq!(up.hits(), 1, "第一次应真的打到上游");

    for _ in 0..5 {
        let e = up.get(&mut c, "/fapi/v1/depth", "symbol=ETHUSDC", 0, NOW);
        assert!(
            matches!(e, Err(ExchangeError::RateLimited { .. })),
            "冷却期内应直接返回限流错误：{e:?}"
        );
    }
    assert_eq!(up.hits(), 1, "冷却期内不能再打上游——这是把封禁拖长的原因");
}

#[test]
fn missing_retry_after_still_arms_a_cooldown() {
    let mut up = FakeUpstream::always(429, None, "too many requests");
    let mut c = client();

    assert!(
        up.get(&mut c, "/fapi/v1/depth", "symbol=ETHUSDC", 0, NOW)
            .is_err()
    );
    assert!(
        c.cooldown_remaining_ms(NOW).is_some(),
        "没有响应头也必须冷却，否则会在封禁期继续打"
    );
}

#[test]
fn cooldown_is_shared_across_clients() {
    let mut a = BinanceClient::public(PRODUCTION_URL).unwrap();
    let mut b = BinanceClient::public(PRODUCTION_URL).unwrap();
    a.arm_cooldown(60_000, NOW);
    assert!(
        b.cooldown_remaining_ms(NOW).is_none(),
        "两个独立客户端默认各有冷却"
    );
    a.share_cooldown_with(&mut b);
    assert!(
        b.cooldown_remaining_ms(NOW).is_some(),
        "绑定后必须共享同一份冷却"
    );
}

#[test]
fn cache_serves_repeated_reads_from_one_upstream_call() {
    let mut up = FakeUpstream::always(200, None, r#"[{"ok":true}]"#);
    let mut c = client();

    for _ in 0..10 {
        let body = up.get(&mut c, "/fapi/v1/depth", "symbol=ETHUSDC&limit=20", 5_000, NOW)
            .expect("应该成功");
        assert_eq!(body, r#"[{"ok":true}]"#);
    }
    assert_eq!(
        up.hits(),
        1,
        "10 次读取只应产生 1 次上游请求，实际 {}",
        up.hits()
    );
}

#[test]
fn cache_key_includes_query_parameters() {
    let mut up = FakeUpstream::always(200, None, "[]");
    let mut c = client();

    up.get(&mut c, "/fapi/v1/depth", "symbol=ETHUSDC", 5_000, NOW)
        .unwrap();
    up.get(&mut c, "/fapi/v1/klines", "symbol=ETHUSDC", 5_000, NOW)
        .unwrap();
    up.get(&mut c, "/fapi/v1/depth", "symbol=BTCUSDC", 5_000, NOW)
        .unwrap();
    assert_eq!(up.hits(), 3, "路径或参数不同不能共用缓存");
}

#[test]
fn zero_ttl_bypasses_cache() {
    let mut up = FakeUpstream::always(200, None, "[]");
    let mut c = client();
    for _ in 0..3 {
        up.get(&mut c, "/fapi/v1/exchangeInfo", "", 0, NOW)
            .unwrap();
    }
    assert_eq!(up.hits(), 3, "TTL=0 必须每次都打上游");
}

#[test]
fn error_fields_extract_binance_code_and_msg() {
    let (code, msg) =
        binance_error_fields(r#"{"code":-1003,"msg":"Way too many requests; IP banned"}"#);
    assert_eq!(code, Some(-1003));
    assert!(msg.contains("banned"), "{msg}");
}

#[test]
fn error_fields_truncate_non_json_bodies() {
    let page = "<html>".repeat(1_000);
    let (code, msg) = binance_error_fields(&page);
    assert_eq!(code, None);
    assert_eq!(msg.chars().count(), LOG_BODY_MAX_CHARS);
}

#[test]
fn upstream_failure_still_arms_cooldown() {
    let mut up = FakeUpstream::always(418, Some("1234"), r#"{"code":-1003,"msg":"banned"}"#);
    let mut c = client();
    let e = up.get(&mut c, "/fapi/v1/depth", "symbol=ETHUSDC", 0, NOW)
        .expect_err("418 应返回错误");
    assert!(
        matches!(
            e,
            ExchangeError::RateLimited {
                retry_after_ms: 1_234_000
            }
        ),
        "{e:?}"
    );
    assert!(c.cooldown_remaining_ms(NOW).is_some(), "418 后应进入冷却");
}

#[test]
fn local_test_escape_hatch_does_not_weaken_the_whitelist() {
    assert!(
        BinanceClient::public("http://127.0.0.1:9999").is_err(),
        "生产构造器必须继续拒绝回环地址"
    );
    assert!(endpoint_allowed("http://127.0.0.1:9999").is_err());
}
