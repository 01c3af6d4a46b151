use vstd::prelude::*;

verus! {

/// Which template repository and branch new projects start from.
pub struct GlobalConfig {
    pub template_repo: String,
    pub template_branch: String,
}

impl Default for GlobalConfig {
    fn default() -> (r: GlobalConfig)
        ensures
            r.template_repo@ == "peonii/oisuite-files"@,
            r.template_branch@ == "main"@,
    {
        GlobalConfig {
            template_repo: "peonii/oisuite-files".to_owned(),
            template_branch: "main".to_owned(),
        }
    }
}

impl GlobalConfig {
    /// The default settings.
    pub fn new() -> (r: GlobalConfig)
        ensures
            r.template_repo@ == "peonii/oisuite-files"@,
            r.template_branch@ == "main"@,
    {
        GlobalConfig::default()
    }
}

} // verus!
