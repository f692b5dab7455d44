//! The bundler step: the Gemfile to install and where gems go.
use vstd::prelude::*;

use crate::text::{from_chars, to_chars};

verus! {

/// The Gemfile to install (`Gemfile` when none is given) and the directory
/// that receives the gems.
#[derive(Debug, Clone)]
pub struct UpConfigBundler {
    pub gemfile: Option<String>,
    pub path: Option<String>,
}

impl Default for UpConfigBundler {
    fn default() -> (r: Self)
        ensures
            r.gemfile is None,
            r.path matches Some(p) && p@ == "vendor/bundle"@,
    {
        UpConfigBundler { gemfile: None, path: Some(String::from_str("vendor/bundle")) }
    }
}

impl UpConfigBundler {
    /// The Gemfile, as configured or `Gemfile`, before it is made absolute.
    pub fn gemfile_name(&self) -> (r: String)
        ensures
            match self.gemfile {
                Some(g) => r@ == g@,
                None => r@ == "Gemfile"@,
            },
    {
        match &self.gemfile {
            Some(g) => from_chars(to_chars(g.as_str()).as_slice()),
            None => String::from_str("Gemfile"),
        }
    }
}

} // verus!
