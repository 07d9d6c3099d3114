use maker_desk::decimal::Decimal;
use maker_desk::quotes::{Interval, KlineRow};

fn dec(text: &str) -> Decimal {
    Decimal::parse(text).unwrap()
}


#[test]
fn interval_round_trips() {
    for iv in [
        Interval::M1,
        Interval::M5,
        Interval::M15,
        Interval::H1,
        Interval::D1,
    ] {
        assert_eq!(Interval::parse(iv.as_str()), Some(iv));
    }
}

#[test]
fn interval_parsing_is_strict() {
    assert_eq!(Interval::parse("1min"), None);
    assert_eq!(Interval::parse("1M"), None, "大小写敏感");
    assert_eq!(Interval::parse("2h"), None);
    assert_eq!(Interval::parse(""), None);
}

#[test]
fn interval_millis_are_correct() {
    assert_eq!(Interval::M1.millis(), 60_000);
    assert_eq!(Interval::M15.millis(), 900_000);
    assert_eq!(Interval::H1.millis(), 3_600_000);
    assert_eq!(Interval::D1.millis(), 86_400_000);
}

#[test]
fn kline_row_parses_binance_array_format() {
    let raw: Vec<serde_json::Value> = serde_json::from_str(
        r#"["1790354340000","2687.41","2689.23","2687.33","2688.66","291.408",
            "1790354399999","783377.68213",916,"198.946","534820.76710","0"]"#,
    )
    .unwrap();
    let row = KlineRow::from(raw);

    assert_eq!(row.open_time, 1_790_354_340_000);
    assert_eq!(row.open, dec("2687.41"));
    assert_eq!(row.high, dec("2689.23"));
    assert_eq!(row.low, dec("2687.33"));
    assert_eq!(row.close, dec("2688.66"));
    assert_eq!(row.volume, dec("291.408"));
    assert_eq!(row.close_time, 1_790_354_399_999);
    assert_eq!(row.trade_count, 916);
}

#[test]
fn last_candle_closed_flag_follows_close_time() {
    let row = KlineRow {
        open_time: 1_790_354_340_000,
        open: dec("2687"),
        high: dec("2690"),
        low: dec("2686"),
        close: dec("2688"),
        volume: dec("100"),
        close_time: 1_790_354_399_999,
        trade_count: 10,
    };

    let after = 1_790_354_400_000;
    assert!(row.to_candle(after).closed);

    let during = 1_790_354_370_000;
    assert!(
        !row.to_candle(during).closed,
        "未收盘的 K 线必须标记出来，策略不能使用它"
    );
}

#[test]
fn kline_row_tolerates_missing_optional_fields() {
    let raw: Vec<serde_json::Value> =
        serde_json::from_str(r#"["1000","1.5","2.5","1.0","2.0","10"]"#).unwrap();
    let row = KlineRow::from(raw);
    assert_eq!(row.open, dec("1.5"));
    assert_eq!(row.trade_count, 0, "缺失字段按 0 处理而不 panic");
}

#[test]
fn kline_row_accepts_numbers_not_just_strings() {
    let raw: Vec<serde_json::Value> =
        serde_json::from_str(r#"[1000, 1.5, 2.5, 1.0, 2.0, 10, 1999, 1, 5]"#).unwrap();
    let row = KlineRow::from(raw);
    assert_eq!(row.open, dec("1.5"));
    assert_eq!(row.open_time, 1000);
}

#[test]
fn close_millis_uses_interval_length() {
    let row = KlineRow {
        open_time: 1_000_000,
        open: dec("1"),
        high: dec("1"),
        low: dec("1"),
        close: dec("1"),
        volume: dec("1"),
        close_time: 0,
        trade_count: 0,
    };
    assert_eq!(row.close_millis(Interval::M1), 1_059_999);
    assert_eq!(row.close_millis(Interval::H1), 4_599_999);
}

#[test]
fn kline_row_handles_invalid_numbers() {
    let raw: Vec<serde_json::Value> =
        serde_json::from_str(r#"["1000","abc","2.5","1.0","2.0","10"]"#).unwrap();
    let row = KlineRow::from(raw);
    assert_eq!(row.open, Decimal::zero(), "无效值退化为 0 而非 panic");
    assert_eq!(row.high, dec("2.5"), "其他字段不受影响");
}
