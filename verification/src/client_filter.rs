//! The client's settings: the watched directory, the server's address and
//! port, and the rules of files that are not sent.
use vstd::prelude::*;
use ignore::gitignore::Gitignore;
use crate::ignore_rules::{
    add_rules, all_accepted, build_rules, built_root, first_rejected_at, gitignore_builds,
    gitignore_ignores, gitignore_root, gitignore_rules, is_ignored, new_builder, rule_texts,
    rules_added, FilterError,
};

verus! {

/// The client's settings.
pub struct Filter {
    ignore: Gitignore,
    baseDir: String,
    dns_web_address: String,
    client_port: String,
    current_id: u64,
}

impl Filter {
    /// Settings from the configured values: every ignore rule is added as
    /// one gitignore line, relative to the watched directory.
    pub fn from_config(
        watch_dir: String,
        dns_web_address: String,
        client_port: String,
        ignore_rules: &Vec<String>,
    ) -> (r: Result<Self, FilterError>)
        ensures
            r matches Ok(f) ==> f.base_dir_view() == watch_dir@ && f.dns_view()
                == dns_web_address@ && f.port_view() == client_port@ && f.rules_view()
                == rules_added(rule_texts(ignore_rules@)) && f.rules_root() == built_root(
                watch_dir@,
                f.rules_view(),
            ),
            r matches Err(FilterError::RuleRejected(i)) ==> first_rejected_at(
                ignore_rules@,
                i as int,
            ),
            !all_accepted(ignore_rules@) ==> r matches Err(FilterError::RuleRejected(_)),
            all_accepted(ignore_rules@) ==> (r is Ok || r matches Err(FilterError::BuildFailed)),
            all_accepted(ignore_rules@) ==> (r is Ok <==> gitignore_builds(
                rules_added(rule_texts(ignore_rules@)),
            )),
    {
        let mut builder = new_builder(watch_dir.as_str());
        if let Some(i) = add_rules(&mut builder, ignore_rules) {
            return Err(FilterError::RuleRejected(i));
        }
        assert(Seq::<Seq<char>>::empty() + rules_added(rule_texts(ignore_rules@)) =~= rules_added(
            rule_texts(ignore_rules@),
        ));
        let ignore = match build_rules(&builder) {
            Some(g) => g,
            None => {
                return Err(FilterError::BuildFailed);
            },
        };
        Ok(
            Filter {
                ignore,
                baseDir: watch_dir,
                dns_web_address,
                client_port,
                current_id: 0,
            },
        )
    }

    pub closed spec fn base_dir_view(&self) -> Seq<char> {
        self.baseDir@
    }

    pub closed spec fn dns_view(&self) -> Seq<char> {
        self.dns_web_address@
    }

    pub closed spec fn port_view(&self) -> Seq<char> {
        self.client_port@
    }

    /// The texts of the ignore rules, in the configured order.
    pub closed spec fn rules_view(&self) -> Seq<Seq<char>> {
        gitignore_rules(self.ignore)
    }

    /// The directory the ignore rules are matched relative to.
    pub closed spec fn rules_root(&self) -> Seq<char> {
        gitignore_root(self.ignore)
    }

    /// Whether a changed path is kept from the server: it is when the
    /// ignore rules ignore it, taken as a path that is not a directory.
    pub fn should_filter(&self, path: &str) -> (r: bool)
        ensures
            r == gitignore_ignores(self.rules_root(), self.rules_view(), path@),
    {
        is_ignored(&self.ignore, path)
    }

    pub fn get_base_dir(&self) -> (r: &str)
        ensures
            r@ == self.base_dir_view(),
    {
        self.baseDir.as_str()
    }

    pub fn get_dns_web_address(&self) -> (r: &str)
        ensures
            r@ == self.dns_view(),
    {
        self.dns_web_address.as_str()
    }

    pub fn get_client_port(&self) -> (r: &str)
        ensures
            r@ == self.port_view(),
    {
        self.client_port.as_str()
    }
}

} // verus!
