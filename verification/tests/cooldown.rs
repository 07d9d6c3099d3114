use maker_desk::cooldown::{
    parse_banned_until_ms, parse_retry_after, shared_after_success, shared_mark, Cooldown,
    Deadline, DEFAULT_RETRY_AFTER_MS, MAX_RETRY_AFTER_MS,
};

#[test]
fn retry_after_is_read_as_seconds() {
    assert_eq!(parse_retry_after(Some("1234")), 1_234_000);
    assert_eq!(parse_retry_after(Some("1")), 1_000);
    assert_eq!(parse_retry_after(Some("  60 ")), 60_000, "容忍空白");
}

#[test]
fn missing_or_invalid_retry_after_falls_back_conservatively() {
    for raw in [
        None,
        Some(""),
        Some("0"),
        Some("abc"),
        Some("-5"),
        Some("Wed, 21 Oct 2026 07:28:00 GMT"),
    ] {
        assert_eq!(
            parse_retry_after(raw),
            DEFAULT_RETRY_AFTER_MS,
            "{raw:?} 应退化为兜底值而非 0"
        );
    }
}

#[test]
fn absurd_retry_after_is_capped() {
    assert_eq!(parse_retry_after(Some("99999999")), MAX_RETRY_AFTER_MS);
    assert_eq!(
        parse_retry_after(Some("18446744073709551615")),
        MAX_RETRY_AFTER_MS
    );
}

const UNTIL: i64 = 1_790_354_159_999;

#[test]
fn banned_until_is_extracted_from_body() {
    let body = format!(
        r#"{{"code":-1003,"msg":"Way too much request weight used; IP banned until {UNTIL}."}}"#
    );
    assert_eq!(parse_banned_until_ms(&body, UNTIL - 60_000), Some(60_000));
    assert_eq!(
        parse_banned_until_ms(&body, UNTIL - 1_234_000),
        Some(1_234_000)
    );
}

#[test]
fn banned_until_handles_absent_or_past_timestamps() {
    assert_eq!(
        parse_banned_until_ms(r#"{"code":-1003,"msg":"nope"}"#, 0),
        None
    );
    let body = r#"{"msg":"IP banned until 1000."}"#;
    assert_eq!(
        parse_banned_until_ms(body, 5_000),
        None,
        "已过期的解封时间不产生等待"
    );
    assert_eq!(parse_banned_until_ms("banned until abc.", 0), None);
    assert_eq!(parse_banned_until_ms("banned until .", 0), None);
}

#[test]
fn banned_until_is_never_negative_or_overflowing() {
    let body = r#"{"msg":"IP banned until 99999999999999999."}"#;
    assert_eq!(parse_banned_until_ms(body, 0), Some(MAX_RETRY_AFTER_MS));
}

fn base() -> i64 {
    1_790_000_000_000
}

#[test]
fn fresh_cooldown_is_inactive() {
    let c = Cooldown::new();
    assert_eq!(c.remaining_ms(base()), None);
}

#[test]
fn armed_cooldown_reports_remaining_time() {
    let mut c = Cooldown::new();
    c.arm_until(base() + 1_000_000);
    assert_eq!(c.remaining_ms(base() + 400_000), Some(600_000));
}

#[test]
fn arm_ms_sets_a_real_deadline_in_the_future() {
    let mut c = Cooldown::new();
    assert!(!c.is_cooling_down(base()));
    c.arm_ms(60_000, base());
    assert!(
        c.is_cooling_down(base()),
        "arm_ms 之后必须处于冷却中，否则封禁期会继续打上游"
    );
    let remaining = c.remaining_ms(base()).expect("应有剩余时间");
    assert!(
        (1..=60_000).contains(&remaining),
        "剩余时间应在 60 秒内：{remaining}"
    );
}

#[test]
fn zero_duration_is_not_cooling_down() {
    let mut c = Cooldown::new();
    c.arm_ms(0, base());
    assert!(!c.is_cooling_down(base()));
}

#[test]
fn elapsed_cooldown_reports_none() {
    let mut c = Cooldown::new();
    c.arm_until(base() + 1_000_000);
    assert_eq!(
        c.remaining_ms(base() + 1_000_000),
        None,
        "边界：正好到期即可发送"
    );
    assert_eq!(c.remaining_ms(base() + 2_000_000), None);
}

#[test]
fn shorter_cooldown_does_not_shorten_a_longer_one() {
    let mut c = Cooldown::new();
    c.arm_until(base() + 10_000_000);
    c.arm_until(base() + 2_000_000);
    assert_eq!(
        c.remaining_ms(base() + 1_000_000),
        Some(9_000_000),
        "后到的短冷却不应把长封禁截短"
    );
}

#[test]
fn longer_cooldown_extends() {
    let mut c = Cooldown::new();
    c.arm_until(base() + 2_000_000);
    c.arm_until(base() + 10_000_000);
    assert_eq!(c.remaining_ms(base() + 1_000_000), Some(9_000_000));
}

#[test]
fn clear_only_applies_after_expiry() {
    let mut c = Cooldown::new();
    c.arm_ms(60_000, base());
    c.clear_if_elapsed(base());
    assert!(c.is_cooling_down(base()), "未到期的冷却不能被一次成功响应清掉");

    let mut e = Cooldown::new();
    e.arm_until(base() - 5_000);
    e.clear_if_elapsed(base());
    assert_eq!(e.remaining_ms(0), None);
    assert_eq!(e.remaining_ms(i64::MIN), Cooldown::new().remaining_ms(i64::MIN));
}

#[test]
fn clones_share_state() {
    let mut a = Cooldown::new();
    let b = a.clone();
    a.arm_ms(60_000, base());
    assert!(
        b.is_cooling_down(base()),
        "克隆必须看到同一份冷却，否则每个请求方会各自撞一次限流"
    );
}

#[test]
fn adopt_takes_the_later_deadline() {
    let mut target = Cooldown::new();
    let mut source = Cooldown::new();
    source.arm_until(base() + 10_000_000);
    target.arm_until(base() + 1_000_000);
    target.adopt(&source);
    assert_eq!(
        target.remaining_ms(base()),
        Some(10_000_000),
        "应取较晚的截止时刻"
    );

    let mut short = Cooldown::new();
    short.arm_until(base() + 1_000);
    target.adopt(&short);
    assert_eq!(target.remaining_ms(base()), Some(10_000_000));
}

#[test]
fn clones_share_longer_waits_and_their_end() {
    let mut a = Cooldown::new();
    let mut b = a.clone();
    b.arm_until(base() + 10_000);
    a.arm_until(base() + 2_000);
    assert_eq!(a.remaining_ms(base()), Some(10_000));
    assert_eq!(b.remaining_ms(base()), Some(10_000));
    assert_eq!(a.remaining_with(0, base()), Some(2_000));
    assert_eq!(a.remaining_with(base() as u64 + 5_000, base()), Some(5_000));
    a.clear_if_elapsed(base() + 9_999);
    assert!(b.is_cooling_down(base()));
    a.clear_if_elapsed(base() + 10_000);
    b.clear_if_elapsed(base() + 10_000);
    assert_eq!(a.remaining_ms(base()), None);
    assert_eq!(b.remaining_ms(base()), None);
    assert_eq!(Cooldown::default().remaining_ms(base()), None);
}

#[test]
fn an_end_is_only_moved_on() {
    let mut d = Deadline::new();
    assert_eq!((d.until(), d.remaining_ms(0)), (0, None));
    d.arm_until(-5);
    assert_eq!(d.until(), 0);
    d.arm_until(9);
    d.arm_until(7);
    assert_eq!((d.until(), d.remaining_ms(4), d.remaining_ms(9)), (9, Some(5), None));
    let e = d.clone();
    d.clear_if_elapsed(8);
    assert_eq!(d.until(), 9);
    d.clear_if_elapsed(9);
    assert_eq!((d.until(), e.until()), (0, 9));
}

#[test]
fn adopting_takes_over_what_others_share() {
    let mut a = Cooldown::new();
    let b = a.clone();
    a.arm_ms(5_000, base());
    let mut c = Cooldown::new();
    c.adopt(&b);
    assert_eq!(c.remaining_ms(base()), Some(5_000));
}

#[test]
fn a_late_success_leaves_a_wait_that_another_found() {
    let mut a = Cooldown::new();
    let mut b = a.clone();
    b.arm_until(base() + 10_000);
    a.clear_if_elapsed(base() + 1);
    for t in [base() + 1, base() + 9_999, base() + 10_000] {
        let left = (base() + 10_000 - t) as u64;
        let want = if left > 0 { Some(left) } else { None };
        assert_eq!((a.remaining_ms(t), b.remaining_ms(t)), (want, want));
    }
    assert_eq!(shared_after_success(500, 499), 500);
    assert_eq!(shared_after_success(500, 500), 0);
    assert_eq!(shared_after_success(u64::MAX, 0), 0);
    assert_eq!((shared_mark(-1), shared_mark(0), shared_mark(7)), (0, 0, 7));
    assert_eq!(shared_mark(i64::MAX), i64::MAX as u64);
}
