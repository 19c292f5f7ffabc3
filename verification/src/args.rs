//! Command-line options of the sniper, as plain values.

use vstd::prelude::*;

verus! {

/// Options chosen at process start. `snipers` is the number of snipers that
/// would run; only values in `1..20` are meaningful.
pub struct SniperArgs {
    /// Attach to the headless browser and display it.
    pub attach: bool,
    /// Number of snipers that will run.
    pub snipers: u8,
    /// Screenshot the page on error.
    pub debug: bool,
}

impl SniperArgs {
    /// The range the sniper count must lie in.
    pub open spec fn wf(self) -> bool {
        1 <= self.snipers < 20
    }

    /// Builds the options, rejecting a sniper count outside `1..20`.
    pub fn new(attach: bool, snipers: u8, debug: bool) -> (r: Option<SniperArgs>)
        ensures
            match r {
                Some(a) => a.wf() && a.attach == attach && a.snipers == snipers
                    && a.debug == debug,
                None => !(1 <= snipers < 20),
            },
    {
        if 1 <= snipers && snipers < 20 {
            Some(SniperArgs { attach, snipers, debug })
        } else {
            None
        }
    }
}

} // verus!
