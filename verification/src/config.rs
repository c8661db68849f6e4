//! What the search was asked to do.

use vstd::prelude::*;

verus! {

/// The wishes of the caller.
pub struct Config {
    /// What to look for.
    pub query: String,
    /// The file to look in.
    pub filename: String,
    /// Whether upper and lower case differ.
    pub case_sensitive: bool,
}

/// What is said when no argument follows the name of the program.
pub open spec fn missing_both() -> Seq<char> {
    "Missing required arguments: [search_expr] [filename]"@
}

/// What is said when only one argument follows the name of the program.
pub open spec fn missing_filename() -> Seq<char> {
    "Missing required arguments: search_expr [filename]"@
}

impl Config {
    /// Reads the wishes off the command line.
    ///
    /// `args` is the command line, the name of the program first: the query
    /// comes second and the name of the file third, and what follows is not
    /// looked at. `ignore_case` says whether the caller asked for a search
    /// that takes upper and lower case for the same.
    pub fn parse_args(args: Vec<String>, ignore_case: bool) -> (parsed: Result<
        Config,
        &'static str,
    >)
        ensures
            parsed is Ok <==> args@.len() >= 3,
            parsed matches Ok(config) ==> {
                &&& config.query@ == args@[1]@
                &&& config.filename@ == args@[2]@
                &&& config.case_sensitive == !ignore_case
            },
            parsed matches Err(text) ==> text@ == if args@.len() < 2 {
                missing_both()
            } else {
                missing_filename()
            },
    {
        if args.len() < 2 {
            return Err("Missing required arguments: [search_expr] [filename]");
        }
        if args.len() < 3 {
            return Err("Missing required arguments: search_expr [filename]");
        }
        let query = args[1].clone();
        let filename = args[2].clone();
        Ok(Config { query, filename, case_sensitive: !ignore_case })
    }
}

} // verus!
