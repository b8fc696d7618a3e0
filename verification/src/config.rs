//! The settings a configuration file can hold.
use vstd::prelude::*;

verus! {

/// Configuration loaded from the config file.
/// All fields are optional; command-line arguments take precedence.
#[derive(Debug, Clone, Default)]
pub struct FileConfig {
    pub mode: Option<String>,
    pub delimiters: Option<String>,
    pub width: Option<usize>,
    pub dark: Option<bool>,
    pub light: Option<bool>,
    pub no_cache: Option<bool>,
    pub verbose: Option<bool>,
}

/// The characters of an optional `String`.
pub open spec fn opt_string(o: Option<String>) -> Option<Seq<char>> {
    match o {
        Some(s) => Some(s@),
        None => None,
    }
}

} // verus!
