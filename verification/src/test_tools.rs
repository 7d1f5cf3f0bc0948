//! Fixed fixtures exercising the library: the filesystem roots a
//! throwaway frontend instance works under.

use vstd::prelude::*;

use crate::erro_handle::ErroHandle;
use crate::paths::Paths;

verus! {

/// The four roots a test instance uses, all under one scratch
/// directory.
pub fn get_paths() -> (r: Result<Paths, ErroHandle>)
    ensures
        r is Ok,
        r->Ok_0.system@ == "retro_out_test/system"@,
        r->Ok_0.save@ == "retro_out_test/save"@,
        r->Ok_0.opt@ == "retro_out_test/opt"@,
        r->Ok_0.assets@ == "retro_out_test/assents"@,
{
    Paths::new(
        "retro_out_test/system".to_owned(),
        "retro_out_test/save".to_owned(),
        "retro_out_test/opt".to_owned(),
        "retro_out_test/assents".to_owned(),
    )
}

} // verus!
