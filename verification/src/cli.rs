//! The arguments of the host process.

use vstd::prelude::*;

verus! {

/// Starts a data processing pipeline from provided config
#[derive(PartialEq, Eq, Debug)]
pub struct CliArgs {
    /// A YAML file to read the pipeline structure from
    pub pipeline_file: String,
    /// A directory to load the modules from
    pub module_dir: String,
}

/// The value of an argument: what the command line gave, else the default.
pub open spec fn given_or(given: Option<String>, default: Seq<char>) -> Seq<char> {
    match given {
        Some(text) => text@,
        None => default,
    }
}

impl CliArgs {
    /// Makes the arguments of what the command line gave. An argument that
    /// it did not give has its default: `pipeline.yaml` for the pipeline
    /// file, `modules` for the module directory.
    pub fn do_parse(pipeline_file: Option<String>, module_dir: Option<String>) -> (r: CliArgs)
        ensures
            r.pipeline_file@ == given_or(pipeline_file, "pipeline.yaml"@),
            r.module_dir@ == given_or(module_dir, "modules"@),
    {
        CliArgs {
            pipeline_file: match pipeline_file {
                Some(path) => path,
                None => String::from_str("pipeline.yaml"),
            },
            module_dir: match module_dir {
                Some(path) => path,
                None => String::from_str("modules"),
            },
        }
    }
}

} // verus!
