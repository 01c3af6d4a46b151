use crate::replace::replacer::{expanded, expansion_view, libraries_view, Library, ReplaceError, Replacer};
use vstd::prelude::*;

verus! {

/// The program text to hand to the compiler: `source` with its `%lib` lines
/// expanded from `libraries`.
pub fn compile_program(source: &str, libraries: &Vec<Library>) -> (r: Result<String, ReplaceError>)
    ensures
        expansion_view(r) == expanded(source@, libraries_view(libraries@)),
{
    Replacer::from_text(source).replace(libraries)
}

} // verus!
