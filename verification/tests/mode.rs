use maker_desk::mode::{LiveSafety, ServiceMode};


#[test]
fn default_mode_is_paper() {
    assert_eq!(ServiceMode::default(), ServiceMode::Paper);
    assert!(!ServiceMode::default().allows_real_orders());
}

#[test]
fn mode_parsing_is_strict() {
    assert_eq!(ServiceMode::parse("PAPER").unwrap(), ServiceMode::Paper);
    assert_eq!(ServiceMode::parse("paper").unwrap(), ServiceMode::Paper);
    assert_eq!(ServiceMode::parse(" Live ").unwrap(), ServiceMode::Live);

    for bad in ["livex", "true", "1", "yes", "real", "", "pap er"] {
        assert!(ServiceMode::parse(bad).is_err(), "「{bad}」不应被接受");
    }
}

#[test]
fn parse_error_names_the_offending_input() {
    let e = ServiceMode::parse("livex").unwrap_err();
    assert!(e.message().contains("livex"));
    assert!(e.message().contains("PAPER"));
}

#[test]
fn live_mode_allows_real_orders() {
    assert!(ServiceMode::Live.allows_real_orders());
    assert!(ServiceMode::Live.is_live());
    assert!(!ServiceMode::Paper.is_live());
}

#[test]
fn all_three_conditions_are_required_before_submitting() {
    let mut s = LiveSafety::new();
    assert!(!s.can_submit(), "初始状态不能下单");

    assert!(!s.arm(), "前置条件未满足时 arm 应失败");

    s.mark_user_stream_connected(true);
    assert!(!s.arm(), "仅数据流连接还不够");
    assert!(!s.can_submit());

    s.mark_account_reconciled(true);
    assert!(s.arm(), "两个前置条件满足后可以开启");
    assert!(s.can_submit());
}

#[test]
fn stream_disconnect_disarms_automatically() {
    let mut s = LiveSafety::new();
    s.mark_user_stream_connected(true);
    s.mark_account_reconciled(true);
    s.arm();
    assert!(s.can_submit());

    s.mark_user_stream_connected(false);
    assert!(!s.is_armed(), "断线必须自动解除武装");
    assert!(!s.can_submit());
}

#[test]
fn reconciliation_mismatch_disarms_automatically() {
    let mut s = LiveSafety::new();
    s.mark_user_stream_connected(true);
    s.mark_account_reconciled(true);
    s.arm();

    s.mark_account_reconciled(false);
    assert!(!s.is_armed(), "对账不一致必须自动解除武装");
}

#[test]
fn restarting_does_not_restore_armed_state() {
    let s = LiveSafety::new();
    assert!(!s.is_armed());
    assert!(!s.can_submit());
    assert_eq!(s.blocking_reasons().len(), 3, "三项原因都要能列出");
}

#[test]
fn blocking_reasons_are_specific() {
    let mut s = LiveSafety::new();
    s.mark_user_stream_connected(true);
    s.mark_account_reconciled(true);
    let reasons = s.blocking_reasons();
    assert_eq!(reasons.len(), 1);
    assert!(reasons[0].contains("ARM"), "应明确提示缺 ARM：{reasons:?}");

    s.arm();
    assert!(s.blocking_reasons().is_empty());
}

#[test]
fn disarm_works_at_any_time() {
    let mut s = LiveSafety::new();
    s.mark_user_stream_connected(true);
    s.mark_account_reconciled(true);
    s.arm();
    s.disarm();
    assert!(!s.can_submit());
    assert!(s.user_stream_connected(), "解除武装不改变连接状态");
    assert!(s.account_reconciled());
}

#[test]
fn labels_are_user_facing_chinese() {
    assert_eq!(ServiceMode::Paper.label(), "模拟盘");
    assert_eq!(ServiceMode::Live.label(), "实盘");
}
