use vstd::prelude::*;

verus! {

/// The settings of a batch of generated cases, with the cases themselves.
pub struct TestConfig {
    pub count: u32,
    pub time_limit: u32,
    pub memory_limit: u32,
    pub tests: Vec<Test>,
}

/// One stored case of a `TestConfig`.
pub struct Test {
    pub input: String,
    pub output: String,
}

impl Default for TestConfig {
    /// No cases, a time limit of 1000 ms and a memory limit of 256 MB.
    fn default() -> (r: TestConfig)
        ensures
            r.count == 0,
            r.time_limit == 1000,
            r.memory_limit == 256,
            r.tests@.len() == 0,
    {
        TestConfig { count: 0, time_limit: 1000, memory_limit: 256, tests: Vec::new() }
    }
}

} // verus!
