pub mod date;
pub mod search;
pub mod store;
pub mod user;
pub mod visit;

use vstd::prelude::*;

verus! {

/// Settings the surrounding application hands to the persistence layer.
pub struct Config {
    pub database_url: String,
}

} // verus!
