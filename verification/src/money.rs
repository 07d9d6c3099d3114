//! Prices and quantities as types of their own, so that one cannot stand in for the other.

use vstd::prelude::*;
use crate::decimal::Decimal;

verus! {

/// A price.
#[derive(Clone, Copy, Debug, PartialEq, Eq, PartialOrd)]
pub struct Price(pub Decimal);

/// A quantity.
#[derive(Clone, Copy, Debug, PartialEq, Eq, PartialOrd)]
pub struct Qty(pub Decimal);

impl Price {
    pub fn new(d: Decimal) -> (r: Self)
        ensures
            r.0 == d,
    {
        Price(d)
    }

    pub fn get(self) -> (r: Decimal)
        ensures
            r == self.0,
    {
        self.0
    }

    pub fn is_positive(self) -> (r: bool)
        ensures
            r == (self.0@ > 0),
    {
        self.0 > Decimal::zero()
    }

    /// The price as text.
    pub fn text(self) -> (r: String)
        ensures
            r@ == self.0.written(),
    {
        self.0.text()
    }
}

impl Qty {
    pub fn new(d: Decimal) -> (r: Self)
        ensures
            r.0 == d,
    {
        Qty(d)
    }

    /// No quantity.
    pub fn zero() -> (r: Self)
        ensures
            r.0 == Decimal::whole(0),
            r.0@ == 0,
    {
        Qty(Decimal::zero())
    }

    pub fn get(self) -> (r: Decimal)
        ensures
            r == self.0,
    {
        self.0
    }

    pub fn is_positive(self) -> (r: bool)
        ensures
            r == (self.0@ > 0),
    {
        self.0 > Decimal::zero()
    }

    pub fn is_zero(self) -> (r: bool)
        ensures
            r == (self.0@ == 0),
    {
        self.0.is_zero()
    }

    /// The quantity as text.
    pub fn text(self) -> (r: String)
        ensures
            r@ == self.0.written(),
    {
        self.0.text()
    }
}

impl std::ops::Add for Qty {
    type Output = Qty;

    fn add(self, rhs: Qty) -> (r: Qty) {
        Qty(self.0 + rhs.0)
    }
}

impl vstd::std_specs::ops::AddSpecImpl for Qty {
    open spec fn obeys_add_spec() -> bool {
        true
    }

    open spec fn add_req(self, rhs: Qty) -> bool {
        true
    }

    open spec fn add_spec(self, rhs: Qty) -> Qty {
        Qty(self.0.sum(rhs.0))
    }
}

impl std::ops::Sub for Qty {
    type Output = Qty;

    fn sub(self, rhs: Qty) -> (r: Qty) {
        Qty(self.0 - rhs.0)
    }
}

impl vstd::std_specs::ops::SubSpecImpl for Qty {
    open spec fn obeys_sub_spec() -> bool {
        true
    }

    open spec fn sub_req(self, rhs: Qty) -> bool {
        true
    }

    open spec fn sub_spec(self, rhs: Qty) -> Qty {
        Qty(self.0.less(rhs.0))
    }
}

} // verus!
