//! `tc://host[:port][/channel-id]` links. The port is left out when it is the
//! default one.

use vstd::prelude::*;

use crate::text;
use crate::text::{join2, owned, strip_suffix};

verus! {

/// The part of an address that a link shows.
pub open spec fn link_host(addr: Seq<char>) -> Seq<char> {
    if text::has_suffix(addr, ":7100"@) {
        addr.subrange(0, addr.len() - ":7100"@.len())
    } else {
        addr
    }
}

/// The link to a server, or to a channel on it.
pub open spec fn invite_link(addr: Seq<char>, channel: Option<Seq<char>>) -> Seq<char> {
    let server = "tc://"@ + link_host(addr);
    match channel {
        Some(c) if c.len() > 0 => server + "/"@ + c,
        _ => server,
    }
}

/// Builds the link to a `host` or `host:port` address and an optional channel.
pub fn invite_url(addr: &str, channel: Option<&str>) -> (url: String)
    ensures
        url@ == invite_link(
            addr@,
            match channel {
                Some(c) => Some(c@),
                None => None,
            },
        ),
{
    let host = match strip_suffix(addr, ":7100") {
        Some(host) => host,
        None => owned(addr),
    };
    let mut url = join2("tc://", host.as_str());
    if let Some(c) = channel {
        if !c.is_empty() {
            url.append("/");
            url.append(c);
        }
    }
    url
}

/// The default port written out gives the same link as the port left out.
pub proof fn law_default_port_is_implied(host: Seq<char>, channel: Option<Seq<char>>)
    requires
        !text::has_suffix(host, ":7100"@),
    ensures
        invite_link(host + ":7100"@, channel) == invite_link(host, channel),
{
    let full = host + ":7100"@;
    assert(full.subrange(full.len() - ":7100"@.len(), full.len() as int) =~= ":7100"@);
    assert(full.subrange(0, full.len() - ":7100"@.len()) =~= host);
}

} // verus!
