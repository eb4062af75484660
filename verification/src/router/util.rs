use vstd::prelude::*;

verus! {

/// Where the dashboard is served.
pub const DASHBOARD_PATH: &'static str = "/";

} // verus!
