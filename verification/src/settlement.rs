//! What closing a position comes to, on integers.

use vstd::prelude::*;
use crate::decimal::Decimal;
use crate::order::Side;

verus! {

/// A price times a quantity times a rate is computed without rounding.
pub open spec fn charges_exactly(price: Decimal, quantity: Decimal, rate: Decimal) -> bool {
    &&& price.multiplies_exactly(quantity)
    &&& price.prod(quantity).multiplies_exactly(rate)
}

/// The move of the price from an entry to an exit, either way, is multiplied with a quantity
/// without rounding.
pub open spec fn gains_exactly(entry: Decimal, exit: Decimal, quantity: Decimal) -> bool {
    &&& entry.subtracts_exactly(exit)
    &&& exit.subtracts_exactly(entry)
    &&& entry.less(exit).multiplies_exactly(quantity)
    &&& exit.less(entry).multiplies_exactly(quantity)
}

/// The result of a position that is closed is computed without rounding, its fee among it.
pub open spec fn settles_exactly(
    entry: Decimal,
    exit: Decimal,
    quantity: Decimal,
    rate: Decimal,
) -> bool {
    let fee = exit.prod(quantity).prod(rate);
    &&& charges_exactly(exit, quantity, rate)
    &&& gains_exactly(entry, exit, quantity)
    &&& entry.less(exit).prod(quantity).subtracts_exactly(fee)
    &&& exit.less(entry).prod(quantity).subtracts_exactly(fee)
}

/// Whether `fee` is the part `rate` of a price times a quantity.
pub open spec fn is_charge(fee: int, price: int, quantity: int, rate: int) -> bool {
    fee * crate::decimal::unit() * crate::decimal::unit() == price * quantity * rate
}

/// Whether `pnl` is what a position of a side earns when its price goes from `entry` to `exit`,
/// less a fee: `s * (exit - entry) * quantity - fee`, with `s = 1` for a long and `-1` for a short
/// position.
pub open spec fn is_result(
    side: Side,
    entry: int,
    exit: int,
    quantity: int,
    fee: int,
    pnl: int,
) -> bool {
    pnl * crate::decimal::unit() == side.sign() * (exit - entry) * quantity - fee * crate::decimal::unit()
}

/// Without a fee, a quantity closed beyond the entry price earns, one closed short of it loses,
/// and one closed at the entry price does neither. A fee only ever lowers the result.
pub proof fn law_results_have_the_sign_of_the_move(
    side: Side,
    entry: int,
    exit: int,
    quantity: int,
    fee: int,
    pnl: int,
)
    requires
        is_result(side, entry, exit, quantity, fee, pnl),
        quantity > 0,
    ensures
        fee == 0 ==> (pnl > 0 <==> side.sign() * exit > side.sign() * entry),
        fee == 0 ==> (pnl < 0 <==> side.sign() * exit < side.sign() * entry),
        fee >= 0 && side.sign() * exit <= side.sign() * entry ==> pnl <= 0,
{
    let u = crate::decimal::unit();
    let x = side.sign() * (exit - entry);
    assert(x > 0 <==> x * quantity > 0) by (nonlinear_arith)
        requires
            quantity > 0,
    ;
    assert(x < 0 <==> x * quantity < 0) by (nonlinear_arith)
        requires
            quantity > 0,
    ;
    assert(pnl > 0 <==> pnl * u > 0) by (nonlinear_arith)
        requires
            u > 0,
    ;
    assert(pnl < 0 <==> pnl * u < 0) by (nonlinear_arith)
        requires
            u > 0,
    ;
    assert(fee >= 0 ==> fee * u >= 0) by (nonlinear_arith)
        requires
            u > 0,
    ;
}

/// A rate of a price times a quantity.
pub proof fn lemma_charge(price: Decimal, quantity: Decimal, rate: Decimal)
    requires
        charges_exactly(price, quantity, rate),
    ensures
        is_charge(price.prod(quantity).prod(rate)@, price@, quantity@, rate@),
{
    let u = crate::decimal::unit();
    let fee = price.prod(quantity).prod(rate)@;
    let worth = price.prod(quantity)@;
    let r = rate@;
    let pq = price@ * quantity@;
    assert(fee * u * u == pq * r) by (nonlinear_arith)
        requires
            fee * u == worth * r,
            worth * u == pq,
    ;
}

/// The result of a position that is closed.
pub proof fn lemma_result(
    side: Side,
    entry: Decimal,
    exit: Decimal,
    quantity: Decimal,
    rate: Decimal,
)
    requires
        settles_exactly(entry, exit, quantity, rate),
    ensures
        ({
            let fee = exit.prod(quantity).prod(rate);
            let pnl = side.gain(entry, exit).prod(quantity).less(fee);
            &&& is_charge(fee@, exit@, quantity@, rate@)
            &&& is_result(side, entry@, exit@, quantity@, fee@, pnl@)
        }),
{
    let u = crate::decimal::unit();
    let fee = exit.prod(quantity).prod(rate)@;
    let gross = side.gain(entry, exit).prod(quantity)@;
    lemma_charge(exit, quantity, rate);
    assert((gross - fee) * u == gross * u - fee * u) by (nonlinear_arith);
}

/// The result of a position that is closed, on either side, is booked without rounding.
pub open spec fn books_exactly(
    total: Decimal,
    entry: Decimal,
    exit: Decimal,
    quantity: Decimal,
    rate: Decimal,
) -> bool {
    let fee = exit.prod(quantity).prod(rate);
    &&& settles_exactly(entry, exit, quantity, rate)
    &&& total.adds_exactly(entry.less(exit).prod(quantity).less(fee))
    &&& total.adds_exactly(exit.less(entry).prod(quantity).less(fee))
}

/// Whether a total has grown by the result of a position that was closed:
/// `s * (exit - entry) * quantity - fee`.
pub open spec fn grows_by_result(
    before: int,
    after: int,
    side: Side,
    entry: int,
    exit: int,
    quantity: int,
    fee: int,
) -> bool {
    is_result(side, entry, exit, quantity, fee, after - before)
}

/// A total after the result of a position that is closed.
pub proof fn lemma_booked(
    total: Decimal,
    side: Side,
    entry: Decimal,
    exit: Decimal,
    quantity: Decimal,
    rate: Decimal,
)
    requires
        books_exactly(total, entry, exit, quantity, rate),
    ensures
        ({
            let fee = exit.prod(quantity).prod(rate);
            let pnl = side.gain(entry, exit).prod(quantity).less(fee);
            &&& total.sum(pnl)@ == total@ + pnl@
            &&& is_charge(fee@, exit@, quantity@, rate@)
            &&& is_result(side, entry@, exit@, quantity@, fee@, pnl@)
            &&& grows_by_result(
                total@,
                total.sum(pnl)@,
                side,
                entry@,
                exit@,
                quantity@,
                fee@,
            )
        }),
{
    lemma_result(side, entry, exit, quantity, rate);
}

} // verus!
