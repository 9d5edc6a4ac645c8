//! Process-wide configuration consumed by the engine and its callers.

use vstd::prelude::*;

verus! {

/// Process-wide settings: the hard size bound the selection engine
/// enforces, plus the delivery credentials and working directory its
/// callers need.
#[derive(Debug)]
pub struct Config {
    pub max_filesize: i64,
    pub telegram_token: String,
    pub download_dir: String,
}

impl Clone for Config {
    fn clone(&self) -> (r: Self)
        ensures
            r == self,
    {
        Config {
            max_filesize: self.max_filesize,
            telegram_token: self.telegram_token.clone(),
            download_dir: self.download_dir.clone(),
        }
    }
}

} // verus!
