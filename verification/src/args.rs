//! The input and output paths of a run.
use vstd::prelude::*;
use vstd::string::StringExecFns;

verus! {

/// Where the game assembly and metadata files are read from and where outputs go.
pub struct InputPaths {
    pub game_assembly: String,
    pub metadata: String,
    pub startup_metadata: Option<String>,
    pub output_dir: String,
}

/// The output directory used when none is given.
pub open spec fn default_output_dir() -> Seq<char> {
    "static-output"@
}

/// Argument `position` of `args`, else `fallback`.
pub open spec fn arg_or(args: Seq<Seq<char>>, position: int, fallback: Seq<char>) -> Seq<char> {
    if position < args.len() {
        args[position]
    } else {
        fallback
    }
}

impl InputPaths {
    /// The paths that the command-line arguments `args` (game assembly, global metadata,
    /// output directory, startup metadata, in that order) give, with the fallbacks for
    /// those that are missing.
    pub fn from_args(
        args: &Vec<String>,
        game_assembly_fallback: String,
        metadata_fallback: String,
        startup_fallback: Option<String>,
    ) -> (r: InputPaths)
        ensures
            r.game_assembly@ == arg_or(args.deep_view(), 0, game_assembly_fallback@),
            r.metadata@ == arg_or(args.deep_view(), 1, metadata_fallback@),
            r.output_dir@ == arg_or(args.deep_view(), 2, default_output_dir()),
            args@.len() > 3 ==> (r.startup_metadata matches Some(p) && p@ == args@[3]@),
            args@.len() <= 3 ==> match startup_fallback {
                Some(f) => (r.startup_metadata matches Some(p) && p@ == f@),
                None => r.startup_metadata is None,
            },
    {
        let game_assembly = if args.len() > 0 {
            args[0].clone()
        } else {
            game_assembly_fallback
        };
        let metadata = if args.len() > 1 {
            args[1].clone()
        } else {
            metadata_fallback
        };
        let output_dir = if args.len() > 2 {
            args[2].clone()
        } else {
            let mut dir = String::new();
            dir.append("static-output");
            dir
        };
        let startup_metadata = if args.len() > 3 {
            Some(args[3].clone())
        } else {
            startup_fallback
        };
        InputPaths { game_assembly, metadata, startup_metadata, output_dir }
    }
}

} // verus!
