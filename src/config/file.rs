use crate::text::{split_on, split_seq, strings_view, lemma_split_nonempty};
use vstd::prelude::*;

verus! {

/// Where the project template comes from, and how the three programs are built.
pub struct Config {
    pub repo_link: String,
    pub repo_branch: String,
    pub gen_compile_command: String,
    pub brute_compile_command: String,
    pub main_compile_command: String,
}

impl Config {
    /// The default settings.
    pub fn new() -> (r: Config)
        ensures
            r.repo_link@ == "https://github.com/peonii/mst-defaults.git"@,
            r.repo_branch@ == "main"@,
            r.gen_compile_command@ == "g++ gen.cpp -o gen"@,
            r.brute_compile_command@ == "g++ brute.cpp -o brute"@,
            r.main_compile_command@ == "g++ main.cpp -o main"@,
    {
        Config {
            repo_link: "https://github.com/peonii/mst-defaults.git".to_owned(),
            repo_branch: "main".to_owned(),
            gen_compile_command: "g++ gen.cpp -o gen".to_owned(),
            brute_compile_command: "g++ brute.cpp -o brute".to_owned(),
            main_compile_command: "g++ main.cpp -o main".to_owned(),
        }
    }
}

/// A build command line cut at each space: the program, then its arguments.
/// There is always at least one piece.
pub fn command_parts(command: &str) -> (r: Vec<String>)
    ensures
        strings_view(r@) == split_seq(command@, ' '),
        r@.len() >= 1,
{
    proof {
        lemma_split_nonempty(command@, ' ');
    }
    split_on(command, ' ')
}

} // verus!
