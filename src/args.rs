use vstd::prelude::*;

verus! {

/// The command line: the inputs to concatenate, and whether to number lines.
pub struct PurrArgs {
    /// Files to concatenate, `-` standing for standard input.
    pub files: Option<Vec<String>>,
    /// Number all output lines, starting with 1.
    pub number_output_lines: bool,
}

/// The texts of a list of strings.
pub open spec fn string_views(v: Seq<String>) -> Seq<Seq<char>> {
    v.map_values(|s: String| s@)
}

/// The texts of the files given, if any were.
pub open spec fn files_view(files: Option<Vec<String>>) -> Option<Seq<Seq<char>>> {
    match files {
        Some(v) => Some(string_views(v@)),
        None => None,
    }
}

/// The inputs named by the files given: those files, or a lone `-` when none
/// are given.
pub open spec fn named_inputs(files: Option<Seq<Seq<char>>>) -> Seq<Seq<char>> {
    match files {
        Some(v) => if v.len() > 0 {
            v
        } else {
            seq![seq!['-']]
        },
        None => seq![seq!['-']],
    }
}

/// The inputs to read, in order: the files given, or standard input alone
/// (`-`) when none are given.
pub fn input_args(args: PurrArgs) -> (r: Vec<String>)
    ensures
        string_views(r@) == named_inputs(files_view(args.files)),
        match args.files {
            Some(v) => v@.len() > 0 ==> r@ == v@,
            None => true,
        },
        (args.files is None || args.files->0@.len() == 0) ==> r@.len() == 1 && r@[0]@ == seq![
            '-',
        ],
{
    match args.files {
        Some(v) => {
            if v.len() > 0 {
                return v;
            }
        },
        None => {},
    }
    let mut r: Vec<String> = Vec::new();
    let dash = String::from_str("-");
    proof {
        reveal_strlit("-");
        assert(dash@ =~= seq!['-']);
    }
    r.push(dash);
    assert(string_views(r@) =~= seq![seq!['-']]);
    r
}

} // verus!
