//! Exact money amounts.  An amount is a signed count of hundredths, so sums
//! of cash-register lines carry no rounding drift.

use vstd::prelude::*;
use crate::text;

verus! {

/// A monetary amount in hundredths of the currency unit.
#[derive(Clone, Copy, Debug, PartialEq, Eq, Structural)]
pub struct Belopp {
    pub ore: i64,
}

impl Belopp {
    /// An amount from a count of hundredths.
    pub fn fran_ore(ore: i64) -> (r: Belopp)
        ensures
            r.ore == ore,
    {
        Belopp { ore }
    }

    /// Renders the amount with two decimals, e.g. `120.50` or `-30.00`.
    pub fn text(&self) -> (r: String)
        requires
            self.ore > i64::MIN,
        ensures
            r@ == text::belopp_text(self.ore as int),
    {
        text::fmt_belopp(self.ore)
    }
}

} // verus!
