//! The servers that were connected to.

use vstd::prelude::*;

use crate::messages;
use crate::settings;
use crate::settings::ServerEntry;
use crate::state::copy_text;
use crate::text;
use crate::text::{owned, str_eq, trim};

verus! {

/// A server, as it is shown.
#[derive(Debug)]
pub struct ServerView {
    pub addr: String,
    pub label: Option<String>,
    pub last_channel: Option<String>,
    pub favourite: bool,
    pub last_used_unix: u64,
}

impl View for ServerView {
    type V = settings::ServerEntryModel;

    open spec fn view(&self) -> settings::ServerEntryModel {
        settings::ServerEntryModel {
            addr: self.addr@,
            label: messages::opt_text(self.label),
            last_channel: messages::opt_text(self.last_channel),
            favourite: self.favourite,
            last_used_unix: self.last_used_unix,
        }
    }
}

/// The first place of an address in a list of servers, or the length of the
/// list.
pub open spec fn place_of(s: Seq<settings::ServerEntryModel>, addr: Seq<char>) -> int
    decreases s.len(),
{
    if s.len() == 0 || s[0].addr == addr {
        0
    } else {
        1 + place_of(s.drop_first(), addr)
    }
}

proof fn lemma_place_of(s: Seq<settings::ServerEntryModel>, addr: Seq<char>, i: int)
    requires
        0 <= i <= s.len(),
        forall|j: int| 0 <= j < i ==> (#[trigger] s[j]).addr != addr,
        i < s.len() ==> s[i].addr == addr,
    ensures
        place_of(s, addr) == i,
    decreases s.len(),
{
    if s.len() > 0 && i > 0 {
        assert(s[0].addr != addr);
        let t = s.drop_first();
        assert forall|j: int| 0 <= j < i - 1 implies (#[trigger] t[j]).addr != addr by {
            assert(t[j] == s[j + 1]);
        }
        lemma_place_of(t, addr, i - 1);
    }
}

/// The servers with one of them changed, if it is known.
pub open spec fn changed(
    s: Seq<settings::ServerEntryModel>,
    addr: Seq<char>,
    change: spec_fn(settings::ServerEntryModel) -> settings::ServerEntryModel,
) -> Seq<settings::ServerEntryModel> {
    let i = place_of(s, addr);
    if i < s.len() {
        s.update(i, change(s[i]))
    } else {
        s
    }
}

/// The servers after a connection: the server is added or brought up to date.
pub open spec fn touched(s: Seq<settings::ServerEntryModel>, addr: Seq<char>, now: u64) -> Seq<
    settings::ServerEntryModel,
> {
    if place_of(s, addr) < s.len() {
        changed(
            s,
            addr,
            |e: settings::ServerEntryModel|
                settings::ServerEntryModel { last_used_unix: now, ..e },
        )
    } else {
        s.push(
            settings::ServerEntryModel {
                addr,
                label: None,
                last_channel: None,
                favourite: false,
                last_used_unix: now,
            },
        )
    }
}

/// The servers after a channel was joined on one of them.
pub open spec fn recorded(
    s: Seq<settings::ServerEntryModel>,
    addr: Seq<char>,
    channel: Seq<char>,
) -> Seq<settings::ServerEntryModel> {
    changed(
        s,
        addr,
        |e: settings::ServerEntryModel|
            settings::ServerEntryModel { last_channel: Some(channel), ..e },
    )
}

/// The servers without one.
pub open spec fn without(s: Seq<settings::ServerEntryModel>, addr: Seq<char>) -> Seq<
    settings::ServerEntryModel,
>
    decreases s.len(),
{
    if s.len() == 0 {
        s
    } else {
        let rest = without(s.drop_last(), addr);
        if s.last().addr == addr {
            rest
        } else {
            rest.push(s.last())
        }
    }
}

/// Looks for an address.
fn find(servers: &Vec<ServerEntry>, addr: &str) -> (i: usize)
    ensures
        i == place_of(settings::server_views(servers@), addr@),
        i <= servers@.len(),
{
    let ghost s = settings::server_views(servers@);
    let mut i: usize = 0;
    while i < servers.len() && !str_eq(servers[i].addr.as_str(), addr)
        invariant
            i <= servers@.len(),
            s == settings::server_views(servers@),
            forall|j: int| 0 <= j < i ==> (#[trigger] s[j]).addr != addr@,
        decreases servers.len() - i,
    {
        assert(s[i as int] == servers@[i as int]@);
        i = i + 1;
    }
    proof {
        if i < servers@.len() {
            assert(s[i as int] == servers@[i as int]@);
        }
        lemma_place_of(s, addr@, i as int);
    }
    i
}

/// A second entry that says the same.
pub fn copy_server(e: &ServerEntry) -> (r: ServerEntry)
    ensures
        r@ == e@,
{
    ServerEntry {
        addr: e.addr.clone(),
        label: copy_text(&e.label),
        last_channel: copy_text(&e.last_channel),
        favourite: e.favourite,
        last_used_unix: e.last_used_unix,
    }
}

/// Adds the server of a connection, or brings it up to date.
pub fn touch(servers: &mut Vec<ServerEntry>, addr: &str, now: u64)
    ensures
        settings::server_views(final(servers)@) == touched(
            settings::server_views(old(servers)@),
            addr@,
            now,
        ),
{
    let ghost before = settings::server_views(servers@);
    let i: usize = find(servers, addr);
    if i < servers.len() {
        let mut e = copy_server(&servers[i]);
        assert(before[i as int] == servers@[i as int]@);
        e.last_used_unix = now;
        let ghost model = e@;
        servers.set(i, e);
        assert(settings::server_views(servers@) =~= before.update(i as int, model));
        assert(settings::server_views(servers@) =~= touched(before, addr@, now));
    } else {
        let mut e = ServerEntry::default();
        e.addr = owned(addr);
        e.last_used_unix = now;
        let ghost model = e@;
        servers.push(e);
        assert(settings::server_views(servers@) =~= before.push(model));
    }
}

/// Remembers the channel that was joined last on a server.
pub fn record_channel(servers: &mut Vec<ServerEntry>, addr: &str, channel: &str)
    ensures
        settings::server_views(final(servers)@) == recorded(
            settings::server_views(old(servers)@),
            addr@,
            channel@,
        ),
{
    let ghost before = settings::server_views(servers@);
    let i: usize = find(servers, addr);
    if i < servers.len() {
        let mut e = copy_server(&servers[i]);
        assert(before[i as int] == servers@[i as int]@);
        e.last_channel = Some(owned(channel));
        let ghost model = e@;
        servers.set(i, e);
        assert(settings::server_views(servers@) =~= before.update(i as int, model));
        assert(settings::server_views(servers@) =~= recorded(before, addr@, channel@));
    }
}

/// Marks a server as a favourite, or not.
pub fn set_server_favourite(servers: &mut Vec<ServerEntry>, addr: &str, favourite: bool)
    ensures
        settings::server_views(final(servers)@) == changed(
            settings::server_views(old(servers)@),
            addr@,
            |e: settings::ServerEntryModel| settings::ServerEntryModel { favourite, ..e },
        ),
{
    let ghost before = settings::server_views(servers@);
    let i: usize = find(servers, addr);
    if i < servers.len() {
        let mut e = copy_server(&servers[i]);
        assert(before[i as int] == servers@[i as int]@);
        e.favourite = favourite;
        let ghost model = e@;
        servers.set(i, e);
        assert(settings::server_views(servers@) =~= before.update(i as int, model));
    }
}

/// A label, if it holds anything but white space.
pub open spec fn usable_label(label: Option<Seq<char>>) -> Option<Seq<char>> {
    match label {
        Some(l) => if text::trimmed(l).len() > 0 {
            Some(l)
        } else {
            None
        },
        None => None,
    }
}

/// Labels a server; an empty label removes the old one.
pub fn label_server(servers: &mut Vec<ServerEntry>, addr: &str, label: Option<String>)
    ensures
        settings::server_views(final(servers)@) == changed(
            settings::server_views(old(servers)@),
            addr@,
            |e: settings::ServerEntryModel|
                settings::ServerEntryModel { label: usable_label(messages::opt_text(label)), ..e },
        ),
{
    let ghost before = settings::server_views(servers@);
    let i: usize = find(servers, addr);
    if i < servers.len() {
        let mut e = copy_server(&servers[i]);
        assert(before[i as int] == servers@[i as int]@);
        e.label = match label {
            Some(l) => {
                let t = trim(l.as_str());
                if t.as_str().is_empty() {
                    None
                } else {
                    Some(l)
                }
            },
            None => None,
        };
        let ghost model = e@;
        servers.set(i, e);
        assert(settings::server_views(servers@) =~= before.update(i as int, model));
    }
}

/// Forgets a server.
pub fn forget_server(servers: &mut Vec<ServerEntry>, addr: &str)
    ensures
        settings::server_views(final(servers)@) == without(
            settings::server_views(old(servers)@),
            addr@,
        ),
{
    let ghost all = settings::server_views(servers@);
    let mut kept: Vec<ServerEntry> = Vec::new();
    let mut i: usize = 0;
    assert(all.subrange(0, 0) =~= Seq::empty());
    assert(settings::server_views(kept@) =~= without(all.subrange(0, 0), addr@));
    while i < servers.len()
        invariant
            i <= servers@.len(),
            servers@ == old(servers)@,
            all == settings::server_views(servers@),
            settings::server_views(kept@) == without(all.subrange(0, i as int), addr@),
        decreases servers.len() - i,
    {
        let ghost before = settings::server_views(kept@);
        if !str_eq(servers[i].addr.as_str(), addr) {
            let e = copy_server(&servers[i]);
            kept.push(e);
            assert(settings::server_views(kept@) =~= before.push(e@));
        }
        i = i + 1;
        proof {
            let t = all.subrange(0, i as int);
            assert(t.drop_last() =~= all.subrange(0, i - 1));
            assert(t.last() == servers@[i - 1]@);
        }
    }
    assert(all.subrange(0, i as int) =~= all);
    *servers = kept;
}

/// The servers, as they are shown.
pub fn list_servers(servers: &Vec<ServerEntry>) -> (list: Vec<ServerView>)
    ensures
        list@.map_values(|v: ServerView| v@) == settings::server_views(servers@),
{
    let mut list: Vec<ServerView> = Vec::new();
    let mut i: usize = 0;
    while i < servers.len()
        invariant
            i == list@.len(),
            i <= servers@.len(),
            forall|j: int| 0 <= j < i ==> (#[trigger] list@[j])@ == servers@[j]@,
        decreases servers.len() - i,
    {
        let e = copy_server(&servers[i]);
        list.push(
            ServerView {
                addr: e.addr,
                label: e.label,
                last_channel: e.last_channel,
                favourite: e.favourite,
                last_used_unix: e.last_used_unix,
            },
        );
        i = i + 1;
    }
    assert(list@.map_values(|v: ServerView| v@) =~= settings::server_views(servers@));
    list
}

/// No two entries for one address come from connections: a server that is
/// known is brought up to date in its place.
pub proof fn law_known_server_keeps_place(
    s: Seq<settings::ServerEntryModel>,
    addr: Seq<char>,
    now: u64,
)
    requires
        0 <= place_of(s, addr) < s.len(),
    ensures
        touched(s, addr, now).len() == s.len(),
        forall|i: int|
            0 <= i < s.len() && i != place_of(s, addr) ==> #[trigger] touched(s, addr, now)[i]
                == s[i],
        touched(s, addr, now)[place_of(s, addr)].last_used_unix == now,
{
}

proof fn lemma_place_is_first(s: Seq<settings::ServerEntryModel>, addr: Seq<char>)
    ensures
        0 <= place_of(s, addr) <= s.len(),
        place_of(s, addr) < s.len() ==> s[place_of(s, addr)].addr == addr,
        forall|j: int| 0 <= j < place_of(s, addr) ==> (#[trigger] s[j]).addr != addr,
    decreases s.len(),
{
    if s.len() > 0 && s[0].addr != addr {
        let t = s.drop_first();
        lemma_place_is_first(t, addr);
        assert forall|j: int| 0 <= j < place_of(s, addr) implies (#[trigger] s[j]).addr
            != addr by {
            if j > 0 {
                assert(s[j] == t[j - 1]);
            }
        }
    }
}

/// A server that was connected to is known, with the time. A server that was
/// known keeps its label, its channel and its mark, and no other server
/// changes; one that was not comes last, with none of them.
pub proof fn law_touched_server_is_known(
    s: Seq<settings::ServerEntryModel>,
    addr: Seq<char>,
    now: u64,
)
    ensures
        ({
            let t = touched(s, addr, now);
            let known = exists|i: int| 0 <= i < s.len() && (#[trigger] s[i]).addr == addr;
            &&& exists|i: int|
                0 <= i < t.len() && (#[trigger] t[i]).addr == addr && t[i].last_used_unix == now
            &&& known ==> t.len() == s.len()
            &&& !known ==> t.len() == s.len() + 1 && t.last().label is None
                && t.last().last_channel is None && !t.last().favourite
            &&& forall|i: int|
                0 <= i < s.len() ==> {
                    &&& (#[trigger] t[i]).addr == s[i].addr
                    &&& t[i].label == s[i].label
                    &&& t[i].last_channel == s[i].last_channel
                    &&& t[i].favourite == s[i].favourite
                    &&& s[i].addr != addr ==> t[i] == s[i]
                }
        }),
{
    lemma_place_is_first(s, addr);
    let t = touched(s, addr, now);
    let k = place_of(s, addr);
    assert(t[k].addr == addr && t[k].last_used_unix == now);
    if k < s.len() {
        assert(s[k].addr == addr);
    }
}

/// The channel that was joined last on a known server is remembered for that
/// server, and nothing else changes. Of an unknown server nothing is
/// remembered.
pub proof fn law_last_channel_is_remembered(
    s: Seq<settings::ServerEntryModel>,
    addr: Seq<char>,
    channel: Seq<char>,
)
    ensures
        ({
            let t = recorded(s, addr, channel);
            let known = exists|i: int| 0 <= i < s.len() && (#[trigger] s[i]).addr == addr;
            &&& t.len() == s.len()
            &&& known ==> exists|i: int|
                0 <= i < t.len() && (#[trigger] t[i]).addr == addr && t[i].last_channel == Some(
                    channel,
                )
            &&& !known ==> t == s
            &&& forall|i: int|
                0 <= i < s.len() ==> {
                    &&& (#[trigger] t[i]).addr == s[i].addr
                    &&& t[i].label == s[i].label
                    &&& t[i].favourite == s[i].favourite
                    &&& t[i].last_used_unix == s[i].last_used_unix
                    &&& s[i].addr != addr ==> t[i] == s[i]
                }
        }),
{
    lemma_place_is_first(s, addr);
    let t = recorded(s, addr, channel);
    let k = place_of(s, addr);
    if k < s.len() {
        assert(s[k].addr == addr);
        assert(t[k].addr == addr && t[k].last_channel == Some(channel));
    }
}

/// What is changed about a server is changed in the first entry with its
/// address and nowhere else.
pub proof fn law_change_is_local(
    s: Seq<settings::ServerEntryModel>,
    addr: Seq<char>,
    change: spec_fn(settings::ServerEntryModel) -> settings::ServerEntryModel,
    k: int,
)
    requires
        0 <= k < s.len(),
        s[k].addr == addr,
        forall|j: int| 0 <= j < k ==> (#[trigger] s[j]).addr != addr,
    ensures
        changed(s, addr, change).len() == s.len(),
        changed(s, addr, change)[k] == change(s[k]),
        forall|j: int|
            0 <= j < s.len() && j != k ==> #[trigger] changed(s, addr, change)[j] == s[j],
{
    lemma_place_of(s, addr, k);
}

/// A label of white space removes the old one, and any other is kept as it is.
pub proof fn law_labels(label: Seq<char>)
    ensures
        usable_label(None) is None,
        text::trimmed(label).len() > 0 ==> usable_label(Some(label)) == Some(label),
        text::trimmed(label).len() == 0 ==> usable_label(Some(label)) is None,
{
}

/// A forgotten server is gone, and every other one stays, in its order.
pub proof fn law_forgotten_server_is_gone(s: Seq<settings::ServerEntryModel>, addr: Seq<char>)
    ensures
        without(s, addr) == s.filter(|e: settings::ServerEntryModel| e.addr != addr),
    decreases s.len(),
{
    reveal(Seq::filter);
    if s.len() > 0 {
        law_forgotten_server_is_gone(s.drop_last(), addr);
    }
}

} // verus!
