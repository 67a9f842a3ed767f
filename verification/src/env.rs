//! The process's deployment environment, as its configuration names it.

use vstd::prelude::*;

use crate::text::{chars_eq_str, chars_of};
use crate::trusted::{lower_chars, lower_of};

verus! {

/// Where the process runs: development or production.
#[derive(Clone, Copy, Debug, PartialEq, Eq, Structural)]
pub enum Environment {
    Dev,
    Prod,
}

impl Environment {
    /// Classifies a configured environment name: `prod` or `production` in
    /// any casing means production, everything else development.
    pub fn from_name(name: &str) -> (r: Self)
        ensures
            r == (if lower_of(name@) == "prod"@ || lower_of(name@) == "production"@ {
                Environment::Prod
            } else {
                Environment::Dev
            }),
    {
        let low = lower_chars(&chars_of(name));
        if chars_eq_str(&low, "prod") || chars_eq_str(&low, "production") {
            Environment::Prod
        } else {
            Environment::Dev
        }
    }
}

} // verus!
