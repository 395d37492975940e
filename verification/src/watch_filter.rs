//! The settings the server reads periodically: the watched
//! directory and the rules of paths to ignore.
use vstd::prelude::*;
use ignore::gitignore::Gitignore;
use crate::ignore_rules::{
    add_rules, all_accepted, build_rules, built_root, first_rejected_at, gitignore_builds,
    gitignore_ignores, gitignore_root, gitignore_rules, is_ignored, new_builder, rule_texts,
    rules_added, FilterError,
};

verus! {

/// The watched directory and its ignore rules.
pub struct Filter {
    ignore: Gitignore,
    base_dir: String,
    current_id: u64,
}

impl Filter {
    /// Settings from the configured values: every ignore rule is added as
    /// one gitignore line, relative to the watched directory.
    pub fn from_config(watch_dir: String, ignore_rules: &Vec<String>) -> (r: Result<
        Self,
        FilterError,
    >)
        ensures
            r matches Ok(f) ==> f.watch_dir_view() == watch_dir@ && f.rules_view() == rules_added(
                rule_texts(ignore_rules@),
            ) && f.rules_root() == built_root(watch_dir@, f.rules_view()),
            r matches Err(FilterError::RuleRejected(i)) ==> first_rejected_at(
                ignore_rules@,
                i as int,
            ),
            !all_accepted(ignore_rules@) ==> r matches Err(FilterError::RuleRejected(_)),
            all_accepted(ignore_rules@) ==> (r is Ok || r matches Err(FilterError::BuildFailed)),
            all_accepted(ignore_rules@) ==> (r is Ok <==> gitignore_builds(
                rules_added(rule_texts(ignore_rules@)),
            )),
    {
        let mut builder = new_builder(watch_dir.as_str());
        if let Some(i) = add_rules(&mut builder, ignore_rules) {
            return Err(FilterError::RuleRejected(i));
        }
        assert(Seq::<Seq<char>>::empty() + rules_added(rule_texts(ignore_rules@)) =~= rules_added(
            rule_texts(ignore_rules@),
        ));
        let ignore = match build_rules(&builder) {
            Some(g) => g,
            None => {
                return Err(FilterError::BuildFailed);
            },
        };
        Ok(Filter { ignore, base_dir: watch_dir, current_id: 0 })
    }

    pub closed spec fn watch_dir_view(&self) -> Seq<char> {
        self.base_dir@
    }

    /// The texts of the ignore rules, in the configured order.
    pub closed spec fn rules_view(&self) -> Seq<Seq<char>> {
        gitignore_rules(self.ignore)
    }

    /// The directory the ignore rules are matched relative to.
    pub closed spec fn rules_root(&self) -> Seq<char> {
        gitignore_root(self.ignore)
    }

    /// Whether the rules ignore `path`, taken as a path that is not a
    /// directory.
    pub fn should_filter(&self, path: &str) -> (r: bool)
        ensures
            r == gitignore_ignores(self.rules_root(), self.rules_view(), path@),
    {
        is_ignored(&self.ignore, path)
    }

    /// The watched directory; it is always available.
    pub fn get_watch_dir(&self) -> (r: Result<&str, String>)
        ensures
            r matches Ok(d) && d@ == self.watch_dir_view(),
    {
        Ok(self.base_dir.as_str())
    }
}

} // verus!
