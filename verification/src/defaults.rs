//! The built-in DNS server list, used when no custom resolver files are
//! supplied.

use crate::text::str_views;
use vstd::prelude::*;

verus! {

broadcast use vstd::string::group_string_axioms;

/// The built-in resolver addresses, in order.
pub open spec fn spec_default_resolvers() -> Seq<Seq<char>> {
    seq![
        "1.1.1.1"@,
        "1.0.0.1"@,
        "8.8.8.8"@,
        "8.8.4.4"@,
        "9.9.9.9"@,
        "149.112.112.112"@,
        "208.67.222.222"@,
        "208.67.220.220"@,
    ]
}

/// The built-in default DNS servers.
pub fn ipv4_resolvers() -> (r: Vec<String>)
    ensures
        str_views(r@) == spec_default_resolvers(),
{
    let mut r: Vec<String> = Vec::new();
    r.push("1.1.1.1".to_owned());
    r.push("1.0.0.1".to_owned());
    r.push("8.8.8.8".to_owned());
    r.push("8.8.4.4".to_owned());
    r.push("9.9.9.9".to_owned());
    r.push("149.112.112.112".to_owned());
    r.push("208.67.222.222".to_owned());
    r.push("208.67.220.220".to_owned());
    proof {
        assert(str_views(r@) =~= spec_default_resolvers());
    }
    r
}

} // verus!
