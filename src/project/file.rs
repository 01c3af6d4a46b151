use vstd::prelude::*;

verus! {

/// A project directory, by its path.
pub struct Project {
    path: String,
}

impl View for Project {
    type V = Seq<char>;

    closed spec fn view(&self) -> Seq<char> {
        self.path@
    }
}

impl Project {
    pub fn new(path: &str) -> (r: Project)
        ensures
            r@ == path@,
    {
        Project { path: path.to_owned() }
    }

    pub fn path(&self) -> (r: &str)
        ensures
            r@ == self@,
    {
        self.path.as_str()
    }
}

} // verus!
