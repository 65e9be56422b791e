//! The configuration handed in by the surrounding program.
//!
//! Command-line and environment values are parsed once, outside this
//! library, into this explicit value, rather than being read from ambient
//! process-wide state by whoever happens to need them.

use vstd::prelude::*;

verus! {

/// What the surrounding program was asked to do.
#[derive(Debug)]
pub struct Args {
    /// Run against the in-memory mock transport instead of a real channel.
    pub demo: bool,
    /// The slug of the session to pre-select, if any.
    pub default_session: Option<String>,
    /// A path to a background image to display, if any.
    pub background: Option<String>,
    /// A path to a logo image to display, if any.
    pub logo: Option<String>,
}

impl Default for Args {
    /// The configuration when nothing was asked for.
    fn default() -> (r: Self)
        ensures
            r.demo == false,
            r.default_session is None,
            r.background is None,
            r.logo is None,
    {
        Args { demo: false, default_session: None, background: None, logo: None }
    }
}

} // verus!
