//! Command-line options: the same knobs as the environment-read
//! configuration, as one plain record the front end's argument parser fills.

use vstd::prelude::*;

use crate::config::Config;

verus! {

/// The command-line options.
pub struct Opt {
    /// Path of the directory where pastes are stored.
    pub output: String,
    /// The host name used to build returned URLs.
    pub domain: String,
    /// Whether returned URLs carry the `https` prefix instead of `http`.
    pub https: bool,
    /// The port the app serves on.
    pub port: u16,
    /// How many days to keep files for; zero means forever.
    pub delete_after: u32,
}

impl Opt {
    /// The configuration these options denote, field for field.
    pub fn into_config(self) -> (r: Config)
        ensures
            r.output == self.output,
            r.domain == self.domain,
            r.https == self.https,
            r.port == self.port,
            r.delete_after == self.delete_after,
    {
        Config {
            output: self.output,
            domain: self.domain,
            https: self.https,
            port: self.port,
            delete_after: self.delete_after,
        }
    }
}

} // verus!
