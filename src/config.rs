pub mod file;

use vstd::prelude::*;

verus! {

/// The command named on a command line.
pub struct Config {
    pub command: String,
}

impl Config {
    /// Takes the command from `args[1]`; fails when there is no such argument.
    pub fn new(args: &[String]) -> (r: Result<Config, &'static str>)
        ensures
            args@.len() < 2 ==> r is Err && r->Err_0@ == "not enough arguments"@,
            args@.len() >= 2 ==> r is Ok && r->Ok_0.command@ == args@[1]@,
    {
        if args.len() < 2 {
            return Err("not enough arguments");
        }
        let command = args[1].clone();
        Ok(Config { command })
    }
}

} // verus!
