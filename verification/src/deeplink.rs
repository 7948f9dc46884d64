//! `tc://host[:port][/channel-id]` links that the system hands over.

use vstd::prelude::*;

use crate::config;
use crate::invite;
use crate::messages;
use crate::network;
use crate::text;
use crate::text::{decimal_string, join3, str_eq, strip_back, strip_front};

verus! {

/// An invitation to a server, or to a channel on it.
#[derive(Debug)]
pub struct Invite {
    pub addr: String,
    pub channel: Option<String>,
}

/// What an [`Invite`] says.
#[verifier::ext_equal]
pub struct InviteView {
    pub addr: Seq<char>,
    pub channel: Option<Seq<char>>,
}

impl View for Invite {
    type V = InviteView;

    open spec fn view(&self) -> InviteView {
        InviteView { addr: self.addr@, channel: messages::opt_text(self.channel) }
    }
}

/// What an optional invite says.
pub open spec fn opt_invite(o: Option<Invite>) -> Option<InviteView> {
    match o {
        Some(i) => Some(i@),
        None => None,
    }
}

/// The scheme, host, port and path of a URL, if a text is one.
pub uninterp spec fn url_parts(raw: Seq<char>) -> Option<
    (Seq<char>, Option<Seq<char>>, Option<u16>, Seq<char>),
>;

/// The parts of a URL.
pub struct UrlParts {
    pub scheme: String,
    pub host: Option<String>,
    pub port: Option<u16>,
    pub path: String,
}

/// What [`UrlParts`] say.
pub open spec fn parts_of(p: Option<UrlParts>) -> Option<
    (Seq<char>, Option<Seq<char>>, Option<u16>, Seq<char>),
> {
    match p {
        Some(u) => Some((u.scheme@, messages::opt_text(u.host), u.port, u.path@)),
        None => None,
    }
}

/// Whether a character means nothing but itself in a host.
pub open spec fn is_host_char(c: char) -> bool {
    'a' <= c <= 'z' || '0' <= c <= '9' || c == '-' || c == '.'
}

/// Whether a character means nothing but itself in a path.
pub open spec fn is_path_char(c: char) -> bool {
    'a' <= c <= 'z' || '0' <= c <= '9' || c == '-'
}

/// Whether a text is a host in lower case letters, digits, hyphens and dots.
pub open spec fn is_plain_host(s: Seq<char>) -> bool {
    s.len() > 0 && forall|i: int| 0 <= i < s.len() ==> is_host_char(#[trigger] s[i])
}

/// Whether a text is a path of one segment in lower case letters, digits and
/// hyphens, or nothing.
pub open spec fn is_plain_path(s: Seq<char>) -> bool {
    s.len() == 0 || (s[0] == '/' && forall|i: int|
        1 <= i < s.len() ==> is_path_char(#[trigger] s[i]))
}

/// A link in plain characters: a host, optionally a port, optionally a path.
pub open spec fn plain_link(host: Seq<char>, port: Option<u16>, path: Seq<char>) -> Seq<char> {
    match port {
        Some(p) => "tc://"@ + host + ":"@ + text::decimal(p as nat) + path,
        None => "tc://"@ + host + path,
    }
}

/// Whether a text is that link in plain characters.
pub open spec fn is_plain_link(
    raw: Seq<char>,
    host: Seq<char>,
    port: Option<u16>,
    path: Seq<char>,
) -> bool {
    &&& is_plain_host(host)
    &&& is_plain_path(path)
    &&& raw.len() <= u32::MAX
    &&& raw == plain_link(host, port, path)
}

/// `Url::parse`, then `scheme`, `host_str`, `port` and `path`: the parts of
/// the URL that the text spells. In a `tc` link of plain characters they are
/// the parts that it is written with.
#[verifier::external_body]
fn split_url(raw: &str) -> (parts: Option<UrlParts>)
    ensures
        parts_of(parts) == url_parts(raw@),
        forall|host: Seq<char>, port: Option<u16>, path: Seq<char>| #[trigger]
            is_plain_link(raw@, host, port, path) ==> parts_of(parts) == Some(
                ("tc"@, Some(host), port, path),
            ),
{
    url::Url::parse(raw).ok().map(
        |u| UrlParts {
            scheme: u.scheme().to_string(),
            host: u.host_str().map(|h| h.to_string()),
            port: u.port(),
            path: u.path().to_string(),
        },
    )
}

/// The invite that the parts of a URL make, if they make one.
pub open spec fn invite_of(
    parts: Option<(Seq<char>, Option<Seq<char>>, Option<u16>, Seq<char>)>,
) -> Option<InviteView> {
    match parts {
        Some((scheme, Some(host), port, path)) => if scheme == "tc"@ {
            let channel = text::without_back(text::without_front(path, '/'), '/');
            Some(
                InviteView {
                    addr: host + ":"@ + text::decimal(
                        match port {
                            Some(p) => p as nat,
                            None => config::TCP_PORT as nat,
                        },
                    ),
                    channel: if channel.len() > 0 {
                        Some(channel)
                    } else {
                        None
                    },
                },
            )
        } else {
            None
        },
        _ => None,
    }
}

/// The invite that the parts of a URL make.
pub fn invite_from_parts(parts: &Option<UrlParts>) -> (r: Option<Invite>)
    ensures
        opt_invite(r) == invite_of(parts_of(*parts)),
{
    let u = match parts {
        Some(u) => u,
        None => return None,
    };
    if !str_eq(u.scheme.as_str(), "tc") {
        return None;
    }
    let host = match &u.host {
        Some(h) => h,
        None => return None,
    };
    let port: u16 = match u.port {
        Some(p) => p,
        None => config::TCP_PORT,
    };
    let digits = decimal_string(port as u64);
    let addr = join3(host.as_str(), ":", digits.as_str());
    let front = strip_front(u.path.as_str(), '/');
    let channel = strip_back(front.as_str(), '/');
    if channel.as_str().is_empty() {
        Some(Invite { addr, channel: None })
    } else {
        Some(Invite { addr, channel: Some(channel) })
    }
}

/// Reads a link. One in plain characters leads to what it is written with.
pub fn parse_invite(raw: &str) -> (r: Option<Invite>)
    ensures
        opt_invite(r) == invite_of(url_parts(raw@)),
        forall|host: Seq<char>, port: Option<u16>, path: Seq<char>| #[trigger]
            is_plain_link(raw@, host, port, path) ==> opt_invite(r) == invite_of(
                Some(("tc"@, Some(host), port, path)),
            ),
{
    let parts = split_url(raw);
    invite_from_parts(&parts)
}

/// The link that a client gives out leads back to its server and channel: it
/// is a link in plain characters, and what it is written with is the address
/// and the channel.
pub proof fn law_invite_leads_back(host: Seq<char>, channel: Option<Seq<char>>)
    requires
        is_plain_host(host),
        channel matches Some(c) ==> c.len() > 0 && forall|i: int|
            0 <= i < c.len() ==> is_path_char(#[trigger] c[i]),
        invite::invite_link(host, channel).len() <= u32::MAX,
    ensures
        ({
            let path = match channel {
                Some(c) => "/"@ + c,
                None => Seq::empty(),
            };
            &&& is_plain_link(invite::invite_link(host, channel), host, None, path)
            &&& is_plain_link(invite::invite_link(host + ":7100"@, channel), host, None, path)
            &&& invite_of(Some(("tc"@, Some(host), None, path))) == Some(
                InviteView { addr: network::ported(host), channel },
            )
        }),
{
    reveal_strlit("tc://");
    reveal_strlit("/");
    reveal_strlit(":");
    reveal_strlit(":7100");
    reveal_with_fuel(text::decimal, 5);
    let path = match channel {
        Some(c) => "/"@ + c,
        None => Seq::empty(),
    };
    assert(!text::has_suffix(host, ":7100"@)) by {
        if text::has_suffix(host, ":7100"@) {
            let end = host.subrange(host.len() - 5, host.len() as int);
            assert(end[0] == ":7100"@[0]);
            assert(is_host_char(host[host.len() - 5]));
        }
    }
    invite::law_default_port_is_implied(host, channel);
    let link = invite::invite_link(host, channel);
    assert(link =~= plain_link(host, None, path));
    assert(is_plain_path(path)) by {
        if let Some(c) = channel {
            assert(path[0] == '/');
            assert forall|i: int| 1 <= i < path.len() implies is_path_char(#[trigger] path[i]) by {
                assert(path[i] == c[i - 1]);
            }
        }
    }
    assert(!host.contains(':')) by {
        if host.contains(':') {
            let i = choose|i: int| 0 <= i < host.len() && host[i] == ':';
            assert(is_host_char(host[i]));
        }
    }
    assert(":"@ + text::decimal(7100) =~= ":7100"@);
    assert(host + ":"@ + text::decimal(7100) =~= host + ":7100"@);
    if let Some(c) = channel {
        assert(path.drop_first() =~= c);
        assert(is_path_char(c[0]));
        assert(text::without_front(c, '/') == c);
        assert(text::without_front(path, '/') == c);
        assert(is_path_char(c[c.len() - 1]));
        assert(text::without_back(c, '/') == c);
    } else {
        assert(text::without_front(path, '/') == path);
        assert(text::without_back(path, '/') == path);
    }
}

/// The same holds of a server on another port, which the link then shows.
pub proof fn law_invite_keeps_port(host: Seq<char>, port: u16, channel: Option<Seq<char>>)
    requires
        is_plain_host(host),
        port != config::TCP_PORT,
        channel matches Some(c) ==> c.len() > 0 && forall|i: int|
            0 <= i < c.len() ==> is_path_char(#[trigger] c[i]),
        invite::invite_link(host + ":"@ + text::decimal(port as nat), channel).len() <= u32::MAX,
    ensures
        ({
            let addr = host + ":"@ + text::decimal(port as nat);
            let path = match channel {
                Some(c) => "/"@ + c,
                None => Seq::empty(),
            };
            &&& is_plain_link(invite::invite_link(addr, channel), host, Some(port), path)
            &&& invite_of(Some(("tc"@, Some(host), Some(port), path))) == Some(
                InviteView { addr, channel },
            )
        }),
{
    reveal_strlit("tc://");
    reveal_strlit("/");
    reveal_strlit(":");
    reveal_strlit(":7100");
    let d = text::decimal(port as nat);
    let addr = host + ":"@ + d;
    let path = match channel {
        Some(c) => "/"@ + c,
        None => Seq::empty(),
    };
    text::law_decimal_round_trip(port as nat);
    assert(d.len() <= 5) by {
        reveal_with_fuel(text::decimal, 6);
    }
    assert(!text::has_suffix(addr, ":7100"@)) by {
        if text::has_suffix(addr, ":7100"@) {
            let end = addr.subrange(addr.len() - 5, addr.len() as int);
            if d.len() > 4 {
                assert(end[0] == d[d.len() - 5]);
                assert(text::is_digit(d[d.len() - 5]));
                assert(end[0] == ":7100"@[0]);
            } else if d.len() < 4 {
                assert(end[4 - d.len()] == ':');
                assert(end[4 - d.len()] == ":7100"@[4 - d.len()]);
            } else {
                reveal_with_fuel(text::undecimal, 6);
                reveal_with_fuel(text::decimal, 6);
                assert forall|i: int| 0 <= i < 4 implies d[i] == ":7100"@[i + 1] by {
                    assert(end[i + 1] == d[i]);
                }
                assert(text::decimal(7100) =~= d);
                text::law_decimal_round_trip(7100);
            }
        }
    }
    let link = invite::invite_link(addr, channel);
    assert(link =~= plain_link(host, Some(port), path));
    assert(is_plain_path(path)) by {
        if let Some(c) = channel {
            assert(path[0] == '/');
            assert forall|i: int| 1 <= i < path.len() implies is_path_char(#[trigger] path[i]) by {
                assert(path[i] == c[i - 1]);
            }
        }
    }
    if let Some(c) = channel {
        assert(path.drop_first() =~= c);
        assert(is_path_char(c[0]));
        assert(text::without_front(c, '/') == c);
        assert(text::without_front(path, '/') == c);
        assert(is_path_char(c[c.len() - 1]));
        assert(text::without_back(c, '/') == c);
    } else {
        assert(text::without_front(path, '/') == path);
        assert(text::without_back(path, '/') == path);
    }
}

/// Holds back an invite until somebody can be told of it.
pub struct Gate {
    frontend_ready: bool,
    pending: Option<Invite>,
}

/// What a [`Gate`] holds.
#[verifier::ext_equal]
pub struct GateView {
    pub frontend_ready: bool,
    pub pending: Option<InviteView>,
}

impl View for Gate {
    type V = GateView;

    closed spec fn view(&self) -> GateView {
        GateView { frontend_ready: self.frontend_ready, pending: opt_invite(self.pending) }
    }
}

impl Default for Gate {
    fn default() -> (g: Self)
        ensures
            g@ == (GateView { frontend_ready: false, pending: None }),
    {
        Gate { frontend_ready: false, pending: None }
    }
}

impl Gate {
    /// Notes that the window is up and hands out the invite that was held back.
    pub fn take_pending_invite(&mut self) -> (r: Option<Invite>)
        ensures
            opt_invite(r) == old(self)@.pending,
            final(self)@ == (GateView { frontend_ready: true, pending: None }),
    {
        let mut pending: Option<Invite> = None;
        std::mem::swap(&mut pending, &mut self.pending);
        self.frontend_ready = true;
        pending
    }

    /// Takes an invite: it is handed through, or held back until the window
    /// is up. A newer one replaces it.
    pub fn pass(&mut self, invite: Invite) -> (r: Option<Invite>)
        ensures
            old(self)@.frontend_ready ==> opt_invite(r) == Some(invite@) && final(self)@
                == old(self)@,
            !old(self)@.frontend_ready ==> r is None && final(self)@ == (GateView {
                pending: Some(invite@),
                ..old(self)@
            }),
    {
        if self.frontend_ready {
            Some(invite)
        } else {
            self.pending = Some(invite);
            None
        }
    }

    /// Takes a link: an invite to hand through, if it is one and the window is
    /// up.
    pub fn forward(&mut self, raw: &str) -> (r: Option<Invite>)
        ensures
            match invite_of(url_parts(raw@)) {
                None => r is None && final(self)@ == old(self)@,
                Some(i) => if old(self)@.frontend_ready {
                    opt_invite(r) == Some(i) && final(self)@ == old(self)@
                } else {
                    r is None && final(self)@ == (GateView { pending: Some(i), ..old(self)@ })
                },
            },
    {
        match parse_invite(raw) {
            Some(invite) => self.pass(invite),
            None => None,
        }
    }
}

/// A link of another scheme, or without a host, invites to nothing. In one of
/// ours the host and the port are the address, and what stands between the
/// slashes is the channel.
pub proof fn law_only_our_links_invite(
    scheme: Seq<char>,
    host: Option<Seq<char>>,
    port: Option<u16>,
    path: Seq<char>,
)
    ensures
        invite_of(None) is None,
        invite_of(Some((scheme, host, port, path))) is Some <==> scheme == "tc"@ && host is Some,
        invite_of(Some((scheme, host, port, path))) matches Some(i) ==> {
            &&& port matches Some(p) ==> i.addr == host->0 + ":"@ + text::decimal(p as nat)
            &&& port is None ==> i.addr == host->0 + ":"@ + text::decimal(7100)
            &&& path.len() == 0 ==> i.channel is None
            &&& i.channel matches Some(c) ==> c.len() > 0
        },
{
    if path.len() == 0 {
        assert(text::without_front(path, '/') == path);
        assert(text::without_back(path, '/') == path);
    }
}

} // verus!
