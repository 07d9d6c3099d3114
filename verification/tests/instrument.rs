use maker_desk::instrument::FeeSource;


#[test]
fn only_exchange_sourced_fees_are_authoritative() {
    assert!(FeeSource::ExchangeAccount.is_authoritative());
    assert!(FeeSource::ExchangeRules.is_authoritative());
    assert!(
        !FeeSource::PromotionalAssumed.is_authoritative(),
        "零费率活动未经对账时，回测必须标记为不完整"
    );
    assert!(!FeeSource::ConfiguredDefault.is_authoritative());
}
