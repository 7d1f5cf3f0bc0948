//! The four filesystem roots a context works under.
//!
//! Creating the directories (and failing fatally when one cannot be
//! created) is the embedding application's bootstrap duty; the library
//! only carries the four root paths as plain strings.

use vstd::prelude::*;

use crate::erro_handle::ErroHandle;

verus! {

/// System, save, option and asset roots of one context.
#[derive(Clone, Debug)]
pub struct Paths {
    pub system: String,
    pub save: String,
    pub opt: String,
    pub assets: String,
}

impl Paths {
    /// Bundles the four roots.  The caller must have made sure the
    /// directories exist before any state or option file is written
    /// under them.
    pub fn new(system: String, save: String, opt: String, assets: String) -> (r: Result<
        Paths,
        ErroHandle,
    >)
        ensures
            r is Ok,
            r->Ok_0.system == system,
            r->Ok_0.save == save,
            r->Ok_0.opt == opt,
            r->Ok_0.assets == assets,
    {
        Ok(Paths { system, opt, save, assets })
    }
}

impl PartialEq for Paths {
    fn eq(&self, other: &Paths) -> (r: bool) {
        self.assets == other.assets && self.system == other.system
    }
}

impl vstd::std_specs::cmp::PartialEqSpecImpl for Paths {
    open spec fn obeys_eq_spec() -> bool {
        true
    }

    open spec fn eq_spec(&self, other: &Paths) -> bool {
        self.assets@ == other.assets@ && self.system@ == other.system@
    }
}

} // verus!
