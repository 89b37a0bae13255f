//! Source packages: the checkout of their definitions, its upstream
//! reference, and the plans to build and install them.

pub mod add;
pub mod git;
pub mod plan;
pub mod resolve;
pub mod search;
pub mod util;
pub mod xbps_src;

pub use plan::{plan_src_updates, SrcUpdate};
pub use util::{confirm_once, print_up_all_summary};
