//! Run settings.
use vstd::prelude::*;
use crate::exclude::views;

verus! {

/// The exclusion patterns that every run starts from: dependency, build and
/// cache directories, and minified assets.
pub open spec fn default_exclude_patterns() -> Seq<Seq<char>> {
    seq![
        "node_modules/**"@,
        ".git/**"@,
        "target/**"@,
        "dist/**"@,
        "build/**"@,
        "__pycache__/**"@,
        "*.min.js"@,
        "*.min.css"@,
    ]
}

/// Settings of one run.
#[derive(Debug, Clone)]
pub struct Config {
    /// The codebase to analyze.
    pub input_path: String,
    /// Where index files are copied; `None` leaves them in the working
    /// directory inside the codebase.
    pub output_path: Option<String>,
    /// Languages to analyze; empty means every detected one.
    pub languages: Vec<String>,
    /// Glob patterns to exclude.
    pub exclude_patterns: Vec<String>,
    /// A directory of bundled indexers.
    pub indexers_path: Option<String>,
    pub verbose: bool,
}

impl Default for Config {
    fn default() -> (r: Config)
        ensures
            r.input_path@ == "."@,
            r.output_path is None,
            r.languages@.len() == 0,
            views(r.exclude_patterns@) == default_exclude_patterns(),
            r.indexers_path is None,
            !r.verbose,
    {
        let exclude_patterns = vec![
            String::from_str("node_modules/**"),
            String::from_str(".git/**"),
            String::from_str("target/**"),
            String::from_str("dist/**"),
            String::from_str("build/**"),
            String::from_str("__pycache__/**"),
            String::from_str("*.min.js"),
            String::from_str("*.min.css"),
        ];
        assert(views(exclude_patterns@) =~= default_exclude_patterns());
        Config {
            input_path: String::from_str("."),
            output_path: None,
            languages: Vec::new(),
            exclude_patterns,
            indexers_path: None,
            verbose: false,
        }
    }
}

} // verus!
