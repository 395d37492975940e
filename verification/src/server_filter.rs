//! The server's settings: the directory it saves into and the address and
//! port it listens on. Its ignore rules are checked but not kept.
use vstd::prelude::*;
use crate::ignore_rules::{add_rules, all_accepted, first_rejected_at, new_builder, FilterError};

verus! {

/// The server's settings.
pub struct Filter {
    base_dir: String,
    server_ip: String,
    server_port: String,
}

impl Filter {
    /// Settings from the configured values; every ignore rule must be an
    /// acceptable gitignore line relative to the save directory.
    pub fn from_config(
        watch_dir: String,
        server_ip: String,
        server_port: String,
        ignore_rules: &Vec<String>,
    ) -> (r: Result<Self, FilterError>)
        ensures
            r matches Ok(f) ==> f.base_dir_view() == watch_dir@ && f.ip_view() == server_ip@
                && f.port_view() == server_port@,
            r matches Err(e) ==> e matches FilterError::RuleRejected(i) && first_rejected_at(
                ignore_rules@,
                i as int,
            ),
            r is Ok <==> all_accepted(ignore_rules@),
    {
        let mut builder = new_builder(watch_dir.as_str());
        if let Some(i) = add_rules(&mut builder, ignore_rules) {
            return Err(FilterError::RuleRejected(i));
        }
        Ok(Filter { base_dir: watch_dir, server_ip, server_port })
    }

    pub closed spec fn base_dir_view(&self) -> Seq<char> {
        self.base_dir@
    }

    pub closed spec fn ip_view(&self) -> Seq<char> {
        self.server_ip@
    }

    pub closed spec fn port_view(&self) -> Seq<char> {
        self.server_port@
    }

    pub fn get_server_ip(&self) -> (r: &str)
        ensures
            r@ == self.ip_view(),
    {
        self.server_ip.as_str()
    }

    pub fn get_server_port(&self) -> (r: &str)
        ensures
            r@ == self.port_view(),
    {
        self.server_port.as_str()
    }

    pub fn get_base_dir(&self) -> (r: &str)
        ensures
            r@ == self.base_dir_view(),
    {
        self.base_dir.as_str()
    }
}

} // verus!
