//! Whether a host name stands for this machine.
use crate::json::opt_str;
use crate::text::{chars_of, lowered, same_ignoring_case, string_of_range};
use vstd::prelude::*;
use vstd::string::*;

verus! {

/// A host name without the dot that may end a fully qualified one.
pub open spec fn unqualified(host: Seq<char>) -> Seq<char> {
    if host.len() > 0 && host.last() == '.' {
        host.drop_last()
    } else {
        host
    }
}

fn without_fqdn_dot(hostname: &str) -> (r: String)
    ensures
        r@ == unqualified(hostname@),
{
    let cs = chars_of(hostname);
    if cs.len() > 0 && cs[cs.len() - 1] == '.' {
        let r = string_of_range(&cs, 0, cs.len() - 1);
        assert(r@ =~= hostname@.drop_last());
        r
    } else {
        hostname.to_owned()
    }
}

/// Whether two names agree, but for case.
pub open spec fn same_name(a: Seq<char>, b: Seq<char>) -> bool {
    lowered(a) == lowered(b)
}

/// Whether a host is this machine: no host at all, `localhost`, or the name of
/// the machine in full.
pub open spec fn local_host(host: Option<Seq<char>>, local: Option<Seq<char>>) -> bool {
    match host {
        None => true,
        Some(h) => same_name(unqualified(h), "localhost"@) || (local matches Some(l)
            && unqualified(l).len() > 0 && same_name(unqualified(h), unqualified(l))),
    }
}

/// Whether a `file://` URL host is proven to identify this machine.
///
/// Short hostnames are intentionally not derived from an FQDN: a local
/// `mac.local` and a remote `mac` are distinct machines even though their
/// first labels match.
pub fn is_local_file_host(host: Option<&str>, local_hostname: Option<&str>) -> (r: bool)
    ensures
        r == local_host(opt_str(host), opt_str(local_hostname)),
{
    let host = match host {
        None => {
            return true;
        },
        Some(h) => without_fqdn_dot(h),
    };
    if same_ignoring_case(host.as_str(), "localhost") {
        return true;
    }
    match local_hostname {
        None => false,
        Some(l) => {
            let local = without_fqdn_dot(l);
            !local.as_str().is_empty() && same_ignoring_case(host.as_str(), local.as_str())
        },
    }
}

} // verus!
