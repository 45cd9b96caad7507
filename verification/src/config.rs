use vstd::prelude::*;

verus! {

/// The policy of one invocation: the default remote name, the branch names
/// that are never deleted, and the default staleness threshold in whole
/// days.  Loaded once, read-only thereafter.
pub struct Config {
    pub default_remote: String,
    pub protected_branches: Vec<String>,
    pub max_branch_age_days: u32,
}

/// The names the hard-coded default policy protects.
pub open spec fn default_protected_names() -> Seq<Seq<char>> {
    seq!["origin"@, "master"@, "develop"@]
}

impl Default for Config {
    /// The hard-coded fallback policy, used when no policy file exists:
    /// remote `main`, protected names `origin`, `master` and `develop`, and
    /// a threshold of 30 days.
    fn default() -> (r: Self)
        ensures
            r.default_remote@ == "main"@,
            r.protected_branches.deep_view() == default_protected_names(),
            r.max_branch_age_days == 30,
    {
        let mut protected: Vec<String> = Vec::new();
        protected.push("origin".to_owned());
        protected.push("master".to_owned());
        protected.push("develop".to_owned());
        proof {
            assert(protected.deep_view() =~= default_protected_names());
        }
        Config {
            default_remote: "main".to_owned(),
            protected_branches: protected,
            max_branch_age_days: 30,
        }
    }
}

} // verus!
