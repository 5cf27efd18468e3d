//! The entity that produced telemetry.
use vstd::prelude::*;
use crate::attributes::{Attributes, ValueView, lookup};

verus! {

pub open spec fn service_name_key() -> Seq<char> {
    "service.name"@
}

/// The string stored under a key, when the value there is a string.
pub open spec fn string_attr(a: Seq<(Seq<char>, ValueView)>, key: Seq<char>) -> Option<Seq<char>> {
    match lookup(a, key) {
        Some(ValueView::Str(s)) => Some(s),
        _ => None,
    }
}

/// The attributes that identify a service, host or instance.
#[derive(Debug, Clone, PartialEq)]
pub struct Resource {
    pub attributes: Attributes,
}

pub open spec fn str_opt_view(o: Option<&str>) -> Option<Seq<char>> {
    match o {
        Some(s) => Some(s@),
        None => None,
    }
}

impl Resource {
    pub fn new(attributes: Attributes) -> (r: Self)
        ensures
            r.attributes == attributes,
    {
        Resource { attributes }
    }

    pub fn empty() -> (r: Self)
        ensures
            r.attributes@.len() == 0,
    {
        Resource { attributes: Attributes::new() }
    }

    /// The `service.name` attribute, when it is a string.
    pub fn service_name(&self) -> (r: Option<&str>)
        ensures
            str_opt_view(r) == string_attr(self.attributes@, service_name_key()),
    {
        self.attributes.get_string("service.name")
    }

    /// The `service.version` attribute, when it is a string.
    pub fn service_version(&self) -> (r: Option<&str>)
        ensures
            str_opt_view(r) == string_attr(self.attributes@, "service.version"@),
    {
        self.attributes.get_string("service.version")
    }

    /// The `service.instance.id` attribute, when it is a string.
    pub fn service_instance_id(&self) -> (r: Option<&str>)
        ensures
            str_opt_view(r) == string_attr(self.attributes@, "service.instance.id"@),
    {
        self.attributes.get_string("service.instance.id")
    }
}

impl Default for Resource {
    fn default() -> (r: Self)
        ensures
            r.attributes@.len() == 0,
    {
        Resource::empty()
    }
}

} // verus!
