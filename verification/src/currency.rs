//! Currency: in-game value, counted in pennies.
use vstd::prelude::*;
use vstd::std_specs::ops::{AddSpecImpl, DivSpecImpl, MulSpecImpl, SubSpecImpl};

verus! {

/// A unit of currency representing in-game value. This is used to purchase
/// units and extra moves. The amount is signed, so it can represent debt.
#[derive(Copy, Clone, Debug, PartialEq, Eq, PartialOrd, Ord, Structural)]
pub struct Currency {
    pub(crate) amount: i32,
}

impl View for Currency {
    type V = int;

    /// The amount in pennies.
    open(crate) spec fn view(&self) -> int {
        self.amount as int
    }
}

/// Whether a number fits the amount of a currency.
pub open spec fn fits(n: int) -> bool {
    i32::MIN <= n <= i32::MAX
}

/// The quotient of two numbers, rounded towards zero.
pub open spec fn quotient(a: int, b: int) -> int {
    if a >= 0 {
        a / b
    } else {
        -((-a) / b)
    }
}

impl Currency {
    /// The currency of the given amount.
    pub open(crate) spec fn of(amount: int) -> Currency {
        Currency { amount: amount as i32 }
    }

    /// A standard unit of currency: ten pennies.
    pub fn doubloon() -> (r: Currency)
        ensures
            r@ == 10,
    {
        Currency::new(10)
    }

    /// A standard subunit of currency. This is the smallest unit of currency.
    pub fn penny() -> (r: Currency)
        ensures
            r@ == 1,
    {
        Currency::new(1)
    }

    /// A zero amount of currency.
    pub fn zero() -> (r: Currency)
        ensures
            r@ == 0,
    {
        Currency::new(0)
    }

    /// Create a new currency with the given amount.
    pub fn new(amount: i32) -> (r: Currency)
        ensures
            r@ == amount,
            r == Currency::of(amount as int),
    {
        Currency { amount }
    }

    /// Is the currency amount zero?
    pub fn is_zero(&self) -> (r: bool)
        ensures
            r == (self@ == 0),
    {
        self.amount == 0
    }

    /// Is the currency amount negative?
    pub fn is_debt(&self) -> (r: bool)
        ensures
            r == (self@ < 0),
    {
        self.amount < 0
    }

    /// Is the currency amount positive?
    pub fn is_surplus(&self) -> (r: bool)
        ensures
            r == (self@ > 0),
    {
        self.amount > 0
    }

    /// The amount in pennies.
    pub fn get_amount(&self) -> (r: i32)
        ensures
            r == self@,
    {
        self.amount
    }
}

impl Default for Currency {
    fn default() -> (r: Currency)
        ensures
            r@ == 0,
    {
        Currency::new(0)
    }
}

impl core::ops::Add for Currency {
    type Output = Currency;

    fn add(self, rhs: Currency) -> (r: Currency) {
        Currency::new(self.amount + rhs.amount)
    }
}

impl AddSpecImpl for Currency {
    open spec fn obeys_add_spec() -> bool {
        true
    }

    open spec fn add_req(self, rhs: Currency) -> bool {
        fits(self@ + rhs@)
    }

    open spec fn add_spec(self, rhs: Currency) -> Currency {
        Currency::of(self@ + rhs@)
    }
}

impl core::ops::Sub for Currency {
    type Output = Currency;

    fn sub(self, rhs: Currency) -> (r: Currency) {
        Currency::new(self.amount - rhs.amount)
    }
}

impl SubSpecImpl for Currency {
    open spec fn obeys_sub_spec() -> bool {
        true
    }

    open spec fn sub_req(self, rhs: Currency) -> bool {
        fits(self@ - rhs@)
    }

    open spec fn sub_spec(self, rhs: Currency) -> Currency {
        Currency::of(self@ - rhs@)
    }
}

impl core::ops::Mul<i32> for Currency {
    type Output = Currency;

    fn mul(self, rhs: i32) -> (r: Currency) {
        Currency::new(self.amount * rhs)
    }
}

impl MulSpecImpl<i32> for Currency {
    open spec fn obeys_mul_spec() -> bool {
        true
    }

    open spec fn mul_req(self, rhs: i32) -> bool {
        fits(self@ * rhs)
    }

    open spec fn mul_spec(self, rhs: i32) -> Currency {
        Currency::of(self@ * rhs)
    }
}

impl core::ops::Div<i32> for Currency {
    type Output = Currency;

    fn div(self, rhs: i32) -> (r: Currency) {
        Currency::new(self.amount / rhs)
    }
}

impl DivSpecImpl<i32> for Currency {
    open spec fn obeys_div_spec() -> bool {
        true
    }

    open spec fn div_req(self, rhs: i32) -> bool {
        rhs != 0 && !(self@ == i32::MIN && rhs == -1)
    }

    open spec fn div_spec(self, rhs: i32) -> Currency {
        Currency::of(quotient(self@, rhs as int))
    }
}

impl core::ops::Mul<u32> for Currency {
    type Output = Currency;

    fn mul(self, rhs: u32) -> (r: Currency) {
        Currency::new(self.amount * (rhs as i32))
    }
}

impl MulSpecImpl<u32> for Currency {
    open spec fn obeys_mul_spec() -> bool {
        true
    }

    open spec fn mul_req(self, rhs: u32) -> bool {
        fits(self@ * (rhs as i32))
    }

    open spec fn mul_spec(self, rhs: u32) -> Currency {
        Currency::of(self@ * (rhs as i32))
    }
}

impl core::ops::Div<u32> for Currency {
    type Output = Currency;

    fn div(self, rhs: u32) -> (r: Currency) {
        Currency::new(self.amount / (rhs as i32))
    }
}

impl DivSpecImpl<u32> for Currency {
    open spec fn obeys_div_spec() -> bool {
        true
    }

    open spec fn div_req(self, rhs: u32) -> bool {
        (rhs as i32) != 0 && !(self@ == i32::MIN && (rhs as i32) == -1)
    }

    open spec fn div_spec(self, rhs: u32) -> Currency {
        Currency::of(quotient(self@, (rhs as i32) as int))
    }
}

} // verus!
