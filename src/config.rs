//! The settings of a run over a set of files.
use vstd::prelude::*;

use crate::render::Locale;

verus! {

/// Which files to document, where to write the documents, and in which language.
pub struct Config {
    /// Glob pattern for input files.
    pub input: String,
    /// Output directory, created where missing.
    pub output: String,
    /// Language of the group captions.
    pub locale: Locale,
}

} // verus!
