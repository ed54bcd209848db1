use vstd::prelude::*;

verus! {

/// Broad market context that adds to the confidence of an entry.
pub struct MacroFilter {
    pub is_bull_market: bool,
    pub rsi_oversold: bool,
}

impl MacroFilter {
    /// The default context: a bull market, not oversold.
    pub fn get_market_context() -> (r: Self)
        ensures
            r.is_bull_market,
            !r.rsi_oversold,
    {
        MacroFilter { is_bull_market: true, rsi_oversold: false }
    }
}

} // verus!
