//! The failures that the library reports.

use vstd::prelude::*;

verus! {

#[derive(Debug, PartialEq, Eq)]
pub enum FasError {
    /// The configuration holds no value under the section and label asked for.
    ConfigValueNotFound,
    /// The configuration text is not a TOML document; the parser's own report
    /// is carried along.
    ParseConfig(toml::de::Error),
    /// A sample that counts names the single rate 0 as its target.
    ZeroTargetFps,
    /// Any other failure, with its reason.
    Other(&'static str),
}

} // verus!
