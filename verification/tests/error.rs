use maker_desk::error::{ExchangeError, RejectReason};


#[test]
fn only_definitive_errors_are_retryable_without_reconcile() {
    assert!(ExchangeError::Definitive("连接被拒".into()).retryable_without_reconcile());

    let unknown = ExchangeError::Unknown("请求超时".into());
    assert!(
        !unknown.retryable_without_reconcile(),
        "状态未知时必须先查询，不能直接重发——否则可能重复下单"
    );

    let rejected = ExchangeError::Rejected(RejectReason::PostOnlyWouldCross);
    assert!(!rejected.retryable_without_reconcile());
}

#[test]
fn fatal_errors_are_flagged_for_halt() {
    assert!(ExchangeError::Fatal("签名无效".into()).is_fatal());
    assert!(
        !ExchangeError::RateLimited {
            retry_after_ms: 1000
        }
        .is_fatal()
    );
}
