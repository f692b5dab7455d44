//! Password requests that commands run by a step send back to omni.
use vstd::prelude::*;

use crate::text::{from_chars, to_chars};

verus! {

/// A request for a password, with the prompt to show.
#[derive(Debug, Clone)]
pub struct AskPassRequest {
    pub prompt: String,
}

impl AskPassRequest {
    pub fn new(prompt: &str) -> (r: AskPassRequest)
        ensures
            r.prompt@ == prompt@,
    {
        AskPassRequest { prompt: from_chars(to_chars(prompt).as_slice()) }
    }

    /// The prompt to show: the one given, or `Password:` when it is empty.
    pub fn prompt(&self) -> (r: String)
        ensures
            self.prompt@.len() == 0 ==> r@ == "Password:"@,
            self.prompt@.len() > 0 ==> r@ == self.prompt@,
    {
        if self.prompt.unicode_len() == 0 {
            String::from_str("Password:")
        } else {
            from_chars(to_chars(self.prompt.as_str()).as_slice())
        }
    }
}

} // verus!
