//! The unicast side of the proxy: which questions it takes, which it answers
//! on its own, and how an answer is shaped.

pub mod admin_records;
pub mod handler;
pub mod utils;

use crate::text::{chars_of, ends_with, is_suffix, lowercase};
use utils::{is_service_name, service_name};
use vstd::prelude::*;

verus! {

/// The lower-case name is one of the link: it ends in `.local.` or `.local`,
/// or it is a service name.
pub open spec fn link_name(name_lower: Seq<char>) -> bool {
    ||| is_suffix(".local."@, name_lower)
    ||| is_suffix(".local"@, name_lower)
    ||| service_name(name_lower)
}

/// Whether a name, given in lower case, is one of the link.
pub fn is_link_name(name_lower: &str) -> (r: bool)
    ensures
        r == link_name(name_lower@),
{
    let name = chars_of(name_lower);
    let dotted = chars_of(".local.");
    let bare = chars_of(".local");
    ends_with(&name, &dotted) || ends_with(&name, &bare) || is_service_name(&name)
}

/// Whether a name is one that multicast DNS resolves. Case does not count.
pub fn should_handle_domain(name: &str) -> (r: bool)
    ensures
        r == link_name(lowercase(name@)),
{
    let name_lower = name.to_lowercase();
    is_link_name(name_lower.as_str())
}

} // verus!
