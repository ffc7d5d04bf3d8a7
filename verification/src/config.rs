//! The run-wide configuration: where files come from, where they go, and
//! the template that names them.

use vstd::prelude::*;

verus! {

/// The configuration of one import run.
#[derive(Debug)]
pub struct Config {
    /// The directory from which new images are sourced for import.
    pub source: String,
    /// The directory to which imported images are moved.
    pub target: String,
    /// The template used to name files when they are imported.
    pub template: String,
}

impl Default for Config {
    /// The configuration used when none is given.
    fn default() -> (r: Self)
        ensures
            r.source@ == "ingestion"@,
            r.target@ == "photos"@,
            r.template@ == "{year}/{date_time}-{name}"@,
    {
        Config {
            source: "ingestion".to_owned(),
            target: "photos".to_owned(),
            template: "{year}/{date_time}-{name}".to_owned(),
        }
    }
}

} // verus!
