//! Where the application's logs live.

use vstd::prelude::*;
use crate::paths::{join, path_join};

verus! {

/// The log directory inside the application's data directory: `logs`.
pub fn get_log_dir(app_data_dir: &str) -> (r: String)
    ensures
        r@ == path_join(app_data_dir@, "logs"@),
{
    join(app_data_dir, "logs")
}

} // verus!
