//! Direct messages: the peers that they were exchanged with.

use vstd::prelude::*;

use crate::digest;
use crate::digest::{char_is_hex, fingerprint_of_bytes, hex_decode};
use crate::messages;
use crate::messages::ClientMessage;
use crate::settings;
use crate::settings::DmPeer;
use crate::text;
use crate::text::{chars_of, join2, owned, str_eq, to_lower, trim};

verus! {

/// A peer, as it is shown.
#[derive(Debug)]
pub struct DmPeerView {
    pub pubkey_hex: String,
    pub name: String,
    pub last_seen_unix: u64,
}

impl View for DmPeerView {
    type V = settings::DmPeerModel;

    open spec fn view(&self) -> settings::DmPeerModel {
        settings::DmPeerModel {
            pubkey_hex: self.pubkey_hex@,
            name: self.name@,
            last_seen_unix: self.last_seen_unix,
        }
    }
}

/// What a list of shown peers says.
pub open spec fn shown_views(v: Seq<DmPeerView>) -> Seq<settings::DmPeerModel> {
    v.map_values(|p: DmPeerView| p@)
}

/// The first place of a key in a list of peers, or the length of the list.
pub open spec fn place_of(s: Seq<settings::DmPeerModel>, key: Seq<char>) -> int
    decreases s.len(),
{
    if s.len() == 0 || s[0].pubkey_hex == key {
        0
    } else {
        1 + place_of(s.drop_first(), key)
    }
}

proof fn lemma_place_of(s: Seq<settings::DmPeerModel>, key: Seq<char>, i: int)
    requires
        0 <= i <= s.len(),
        forall|j: int| 0 <= j < i ==> (#[trigger] s[j]).pubkey_hex != key,
        i < s.len() ==> s[i].pubkey_hex == key,
    ensures
        place_of(s, key) == i,
    decreases s.len(),
{
    if s.len() > 0 && i > 0 {
        assert(s[0].pubkey_hex != key);
        let t = s.drop_first();
        assert forall|j: int| 0 <= j < i - 1 implies (#[trigger] t[j]).pubkey_hex != key by {
            assert(t[j] == s[j + 1]);
        }
        lemma_place_of(t, key, i - 1);
    }
}

/// The peers after a message: the peer is added or brought up to date.
pub open spec fn touched(
    s: Seq<settings::DmPeerModel>,
    key: Seq<char>,
    name: Seq<char>,
    now: u64,
) -> Seq<settings::DmPeerModel> {
    let p = settings::DmPeerModel { pubkey_hex: key, name, last_seen_unix: now };
    if place_of(s, key) < s.len() {
        s.update(place_of(s, key), p)
    } else {
        s.push(p)
    }
}

/// The peers without one.
pub open spec fn without(s: Seq<settings::DmPeerModel>, key: Seq<char>) -> Seq<
    settings::DmPeerModel,
>
    decreases s.len(),
{
    if s.len() == 0 {
        s
    } else {
        let rest = without(s.drop_last(), key);
        if s.last().pubkey_hex == key {
            rest
        } else {
            rest.push(s.last())
        }
    }
}

/// Looks for a key.
fn find(peers: &Vec<DmPeer>, key: &str) -> (i: usize)
    ensures
        i == place_of(settings::peer_views(peers@), key@),
        i <= peers@.len(),
{
    let ghost s = settings::peer_views(peers@);
    let mut i: usize = 0;
    while i < peers.len() && !str_eq(peers[i].pubkey_hex.as_str(), key)
        invariant
            i <= peers@.len(),
            s == settings::peer_views(peers@),
            forall|j: int| 0 <= j < i ==> (#[trigger] s[j]).pubkey_hex != key@,
        decreases peers.len() - i,
    {
        assert(s[i as int] == peers@[i as int]@);
        i = i + 1;
    }
    proof {
        if i < peers@.len() {
            assert(s[i as int] == peers@[i as int]@);
        }
        lemma_place_of(s, key@, i as int);
    }
    i
}

/// Adds the peer of a message, or brings it up to date.
pub fn touch(peers: &mut Vec<DmPeer>, pubkey_hex: &str, name: &str, now: u64)
    ensures
        settings::peer_views(final(peers)@) == touched(
            settings::peer_views(old(peers)@),
            pubkey_hex@,
            name@,
            now,
        ),
{
    let ghost before = settings::peer_views(peers@);
    let i: usize = find(peers, pubkey_hex);
    let p = DmPeer { pubkey_hex: owned(pubkey_hex), name: owned(name), last_seen_unix: now };
    let ghost model = p@;
    if i < peers.len() {
        peers.set(i, p);
        assert(settings::peer_views(peers@) =~= before.update(i as int, model));
    } else {
        peers.push(p);
        assert(settings::peer_views(peers@) =~= before.push(model));
    }
}

/// Forgets a peer.
pub fn forget_dm_peer(peers: &mut Vec<DmPeer>, pubkey_hex: &str)
    ensures
        settings::peer_views(final(peers)@) == without(
            settings::peer_views(old(peers)@),
            pubkey_hex@,
        ),
{
    let ghost all = settings::peer_views(peers@);
    let mut kept: Vec<DmPeer> = Vec::new();
    let mut i: usize = 0;
    assert(all.subrange(0, 0) =~= Seq::empty());
    assert(settings::peer_views(kept@) =~= without(all.subrange(0, 0), pubkey_hex@));
    while i < peers.len()
        invariant
            i <= peers@.len(),
            peers@ == old(peers)@,
            all == settings::peer_views(peers@),
            settings::peer_views(kept@) == without(all.subrange(0, i as int), pubkey_hex@),
        decreases peers.len() - i,
    {
        let ghost before = settings::peer_views(kept@);
        if !str_eq(peers[i].pubkey_hex.as_str(), pubkey_hex) {
            let p = copy_peer(&peers[i]);
            kept.push(p);
            assert(settings::peer_views(kept@) =~= before.push(p@));
        }
        i = i + 1;
        proof {
            let t = all.subrange(0, i as int);
            assert(t.drop_last() =~= all.subrange(0, i - 1));
            assert(t.last() == peers@[i - 1]@);
        }
    }
    assert(all.subrange(0, i as int) =~= all);
    *peers = kept;
}

/// A second peer that says the same.
pub fn copy_peer(p: &DmPeer) -> (r: DmPeer)
    ensures
        r@ == p@,
{
    DmPeer {
        pubkey_hex: p.pubkey_hex.clone(),
        name: p.name.clone(),
        last_seen_unix: p.last_seen_unix,
    }
}

/// A list with the most recent peers first gets one more; those that were
/// seen at the same time stay in front of it.
pub open spec fn inserted(s: Seq<settings::DmPeerModel>, p: settings::DmPeerModel) -> Seq<
    settings::DmPeerModel,
>
    decreases s.len(),
{
    if s.len() == 0 {
        seq![p]
    } else if s.last().last_seen_unix >= p.last_seen_unix {
        s.push(p)
    } else {
        inserted(s.drop_last(), p).push(s.last())
    }
}

/// The peers, the most recent ones first. Those that were seen at the same
/// time keep their order.
pub open spec fn by_recency(s: Seq<settings::DmPeerModel>) -> Seq<settings::DmPeerModel>
    decreases s.len(),
{
    if s.len() == 0 {
        s
    } else {
        inserted(by_recency(s.drop_last()), s.last())
    }
}

/// Whether the most recent peers come first.
pub open spec fn is_by_recency(s: Seq<settings::DmPeerModel>) -> bool {
    forall|i: int, j: int|
        #![trigger s[i], s[j]]
        0 <= i <= j < s.len() ==> s[i].last_seen_unix >= s[j].last_seen_unix
}

spec fn all_since(s: Seq<settings::DmPeerModel>, t: u64) -> bool {
    forall|i: int| 0 <= i < s.len() ==> (#[trigger] s[i]).last_seen_unix >= t
}

proof fn lemma_inserted(s: Seq<settings::DmPeerModel>, p: settings::DmPeerModel)
    requires
        is_by_recency(s),
    ensures
        is_by_recency(inserted(s, p)),
        inserted(s, p).to_multiset() == s.to_multiset().insert(p),
        inserted(s, p).len() == s.len() + 1,
        forall|t: u64| #[trigger]
            all_since(s, t) && p.last_seen_unix >= t ==> all_since(inserted(s, p), t),
    decreases s.len(),
{
    broadcast use vstd::seq_lib::group_to_multiset_ensures;

    if s.len() == 0 {
        assert(inserted(s, p) =~= s.push(p));
    } else if s.last().last_seen_unix >= p.last_seen_unix {
        assert forall|i: int| 0 <= i < s.len() implies (#[trigger] s[i]).last_seen_unix
            >= p.last_seen_unix by {
            assert(s[i].last_seen_unix >= s[s.len() - 1].last_seen_unix);
        }
    } else {
        let rest = s.drop_last();
        assert forall|i: int, j: int|
            #![trigger rest[i], rest[j]]
            0 <= i <= j < rest.len() implies rest[i].last_seen_unix >= rest[j].last_seen_unix by {
            assert(s[i].last_seen_unix >= s[j].last_seen_unix);
        }
        lemma_inserted(rest, p);
        assert(rest.push(s.last()) =~= s);
        assert forall|i: int| 0 <= i < rest.len() implies (#[trigger] rest[i]).last_seen_unix
            >= s.last().last_seen_unix by {
            assert(s[i].last_seen_unix >= s[s.len() - 1].last_seen_unix);
        }
        let t = s.last().last_seen_unix;
        assert(all_since(rest, t));
        assert(all_since(inserted(rest, p), t));
        assert(s.to_multiset() =~= rest.to_multiset().insert(s.last()));
        assert(inserted(s, p).to_multiset() =~= s.to_multiset().insert(p));
        assert forall|t: u64| #[trigger]
            all_since(s, t) && p.last_seen_unix >= t implies all_since(inserted(s, p), t) by {
            assert forall|i: int| 0 <= i < rest.len() implies (#[trigger] rest[i]).last_seen_unix
                >= t by {
                assert(rest[i] == s[i]);
            }
            assert(all_since(rest, t));
            assert(s[s.len() - 1].last_seen_unix >= t);
        }
    }
}

/// The list of peers holds every peer once and the most recent ones first.
pub proof fn law_list_is_by_recency(s: Seq<settings::DmPeerModel>)
    ensures
        is_by_recency(by_recency(s)),
        by_recency(s).to_multiset() == s.to_multiset(),
    decreases s.len(),
{
    broadcast use vstd::seq_lib::group_to_multiset_ensures;

    if s.len() > 0 {
        law_list_is_by_recency(s.drop_last());
        lemma_inserted(by_recency(s.drop_last()), s.last());
        assert(s.drop_last().push(s.last()) =~= s);
    }
}

/// Puts a peer into a list with the most recent ones first.
fn insert_by_recency(list: &mut Vec<DmPeerView>, p: DmPeerView)
    ensures
        shown_views(final(list)@) == inserted(shown_views(old(list)@), p@),
{
    let ghost all = shown_views(list@);
    let ghost model = p@;
    let mut i: usize = list.len();
    let ghost n = list@.len() as int;
    assert(all.subrange(0, n) =~= all);
    assert(inserted(all.subrange(0, n), model) + all.subrange(n, n) =~= inserted(all, model));
    while i > 0 && list[i - 1].last_seen_unix < p.last_seen_unix
        invariant
            0 <= i <= list@.len() == n,
            list@ == old(list)@,
            all == shown_views(list@),
            model == p@,
            inserted(all.subrange(0, i as int), model) + all.subrange(i as int, n) == inserted(
                all,
                model,
            ),
        decreases i,
    {
        proof {
            let t = all.subrange(0, i as int);
            assert(t.last() == list@[i - 1]@);
            assert(t.drop_last() =~= all.subrange(0, i - 1));
            assert(all.subrange(i - 1, n) =~= seq![all[i - 1]] + all.subrange(i as int, n));
            assert(inserted(all.subrange(0, i - 1), model) + all.subrange(i - 1, n) =~= inserted(
                t,
                model,
            ) + all.subrange(i as int, n));
        }
        i = i - 1;
    }
    proof {
        let t = all.subrange(0, i as int);
        if i > 0 {
            assert(t.last() == list@[i - 1]@);
        }
        assert(inserted(t, model) =~= t.push(model));
    }
    list.insert(i, p);
    assert(shown_views(list@) =~= all.subrange(0, i as int).push(model) + all.subrange(
        i as int,
        n,
    ));
}

/// The peers, the most recent ones first.
pub fn list_dm_peers(peers: &Vec<DmPeer>) -> (list: Vec<DmPeerView>)
    ensures
        shown_views(list@) == by_recency(settings::peer_views(peers@)),
{
    let ghost all = settings::peer_views(peers@);
    let mut list: Vec<DmPeerView> = Vec::new();
    let mut i: usize = 0;
    assert(all.subrange(0, 0) =~= Seq::empty());
    assert(shown_views(list@) =~= by_recency(all.subrange(0, 0)));
    while i < peers.len()
        invariant
            i <= peers@.len(),
            all == settings::peer_views(peers@),
            shown_views(list@) == by_recency(all.subrange(0, i as int)),
        decreases peers.len() - i,
    {
        let p = DmPeerView {
            pubkey_hex: peers[i].pubkey_hex.clone(),
            name: peers[i].name.clone(),
            last_seen_unix: peers[i].last_seen_unix,
        };
        assert(p@ == all[i as int]);
        insert_by_recency(&mut list, p);
        i = i + 1;
        proof {
            let t = all.subrange(0, i as int);
            assert(t.drop_last() =~= all.subrange(0, i - 1));
            assert(t.last() == all[i - 1]);
        }
    }
    assert(all.subrange(0, i as int) =~= all);
    list
}

/// The short fingerprint of a key in hexadecimal notation; none if it is not.
pub open spec fn fingerprint_of_hex(hex: Seq<char>) -> Seq<char> {
    if digest::is_hex(hex) {
        digest::short_fingerprint(digest::unhex(hex))
    } else {
        Seq::empty()
    }
}

/// The short fingerprint of a key in hexadecimal notation.
pub fn fingerprint_of(pubkey_hex: &str) -> (s: String)
    ensures
        s@ == fingerprint_of_hex(pubkey_hex@),
{
    match hex_decode(pubkey_hex) {
        Ok(bytes) => fingerprint_of_bytes(bytes.as_slice()),
        Err(_) => {
            let s = String::new();
            assert(s@ =~= Seq::empty());
            s
        },
    }
}

/// The key of the first peer with a fingerprint.
pub open spec fn with_fingerprint(s: Seq<settings::DmPeerModel>, fp: Seq<char>) -> Option<
    Seq<char>,
>
    decreases s.len(),
{
    if s.len() == 0 {
        None
    } else if fingerprint_of_hex(s[0].pubkey_hex) == fp {
        Some(s[0].pubkey_hex)
    } else {
        with_fingerprint(s.drop_first(), fp)
    }
}

/// The key that a reference to a peer stands for.
pub open spec fn resolved(s: Seq<settings::DmPeerModel>, query: Seq<char>) -> Option<Seq<char>> {
    let q = text::lowered(text::trimmed(query));
    if !(forall|i: int| 0 <= i < q.len() ==> digest::is_hex_digit(#[trigger] q[i])) {
        None
    } else if q.len() == 64 {
        Some(q)
    } else if q.len() == 16 {
        with_fingerprint(s, q)
    } else {
        None
    }
}

/// Looks up a reference to a peer: a whole key stands for itself, and a short
/// fingerprint for the known peer that has it.
pub fn resolve_peer(peers: &Vec<DmPeer>, query: &str) -> (key: Option<String>)
    ensures
        messages::opt_text(key) == resolved(settings::peer_views(peers@), query@),
{
    let trimmed = trim(query);
    let q = to_lower(trimmed.as_str());
    let chars = chars_of(q.as_str());
    let mut i: usize = 0;
    while i < chars.len()
        invariant
            i <= chars@.len(),
            chars@ == text::lowered(text::trimmed(query@)),
            forall|j: int| 0 <= j < i ==> digest::is_hex_digit(#[trigger] chars@[j]),
        decreases chars.len() - i,
    {
        if !char_is_hex(chars[i]) {
            return None;
        }
        i = i + 1;
    }
    if chars.len() == 64 {
        return Some(q);
    }
    if chars.len() == 16 {
        let ghost all = settings::peer_views(peers@);
        let mut k: usize = 0;
        assert(all.subrange(0, all.len() as int) =~= all);
        while k < peers.len()
            invariant
                k <= peers@.len(),
                all == settings::peer_views(peers@),
                chars@ == q@,
                q@ == text::lowered(text::trimmed(query@)),
                chars@.len() == 16,
                forall|j: int| 0 <= j < chars@.len() ==> digest::is_hex_digit(
                    #[trigger] chars@[j],
                ),
                with_fingerprint(all.subrange(k as int, all.len() as int), q@)
                    == with_fingerprint(all, q@),
            decreases peers.len() - k,
        {
            let fp = fingerprint_of(peers[k].pubkey_hex.as_str());
            proof {
                let t = all.subrange(k as int, all.len() as int);
                assert(t[0] == peers@[k as int]@);
                assert(t.drop_first() =~= all.subrange(k + 1, all.len() as int));
            }
            if str_eq(fp.as_str(), q.as_str()) {
                return Some(peers[k].pubkey_hex.clone());
            }
            k = k + 1;
        }
    }
    None
}

/// The name of the history of the messages with a peer.
pub fn dm_channel(pubkey_hex: &str) -> (s: String)
    ensures
        s@ == "@dm:"@ + pubkey_hex@,
{
    join2("@dm:", pubkey_hex)
}

/// The message that sends a text to a peer.
pub fn direct_message(pubkey_hex: &str, text: &str) -> (r: Result<ClientMessage, String>)
    ensures
        r is Ok <==> digest::is_hex(pubkey_hex@),
        r matches Ok(m) ==> m@ == (messages::ClientMessageView::DirectMessage {
            to_pubkey: digest::unhex(pubkey_hex@),
            text: text@,
        }),
        r matches Err(e) ==> e@ == "bad pubkey hex: "@ + digest::hex_complaint(pubkey_hex@),
{
    match hex_decode(pubkey_hex) {
        Ok(to_pubkey) => Ok(ClientMessage::DirectMessage { to_pubkey, text: owned(text) }),
        Err(e) => Err(join2("bad pubkey hex: ", e.as_str())),
    }
}

/// A peer that was just heard of is known, with its name and the time.
pub proof fn law_touched_is_known(
    s: Seq<settings::DmPeerModel>,
    key: Seq<char>,
    name: Seq<char>,
    now: u64,
)
    ensures
        touched(s, key, name, now).contains(
            settings::DmPeerModel { pubkey_hex: key, name, last_seen_unix: now },
        ),
        touched(s, key, name, now).len() <= s.len() + 1,
{
    lemma_place_range(s, key);
    let p = settings::DmPeerModel { pubkey_hex: key, name, last_seen_unix: now };
    let t = touched(s, key, name, now);
    if place_of(s, key) < s.len() {
        assert(t[place_of(s, key)] == p);
    } else {
        assert(t[s.len() as int] == p);
    }
}

proof fn lemma_place_range(s: Seq<settings::DmPeerModel>, key: Seq<char>)
    ensures
        0 <= place_of(s, key) <= s.len(),
    decreases s.len(),
{
    if s.len() > 0 && s[0].pubkey_hex != key {
        lemma_place_range(s.drop_first(), key);
    }
}

/// A forgotten peer is gone.
pub proof fn law_forgotten_is_gone(s: Seq<settings::DmPeerModel>, key: Seq<char>, i: int)
    requires
        0 <= i < without(s, key).len(),
    ensures
        without(s, key)[i].pubkey_hex != key,
    decreases s.len(),
{
    let rest = without(s.drop_last(), key);
    if i < rest.len() {
        law_forgotten_is_gone(s.drop_last(), key, i);
    }
}

/// Forgetting a peer takes its entries away and leaves every other one, in its
/// order.
pub proof fn law_only_the_forgotten_go(s: Seq<settings::DmPeerModel>, key: Seq<char>)
    ensures
        without(s, key) == s.filter(|p: settings::DmPeerModel| p.pubkey_hex != key),
    decreases s.len(),
{
    reveal(Seq::filter);
    if s.len() > 0 {
        law_only_the_forgotten_go(s.drop_last(), key);
    }
}

/// A message changes nothing about other peers, and a peer that was known
/// keeps its place.
pub proof fn law_other_peers_stay(
    s: Seq<settings::DmPeerModel>,
    key: Seq<char>,
    name: Seq<char>,
    now: u64,
)
    ensures
        ({
            let t = touched(s, key, name, now);
            let known = exists|i: int| 0 <= i < s.len() && (#[trigger] s[i]).pubkey_hex == key;
            &&& known ==> t.len() == s.len()
            &&& !known ==> t.len() == s.len() + 1
            &&& forall|i: int|
                0 <= i < s.len() ==> (#[trigger] t[i]).pubkey_hex == s[i].pubkey_hex
                    && (s[i].pubkey_hex != key ==> t[i] == s[i])
        }),
{
    lemma_place_is_first(s, key);
    let k = place_of(s, key);
    if k < s.len() {
        assert(s[k].pubkey_hex == key);
    }
}

proof fn lemma_place_is_first(s: Seq<settings::DmPeerModel>, key: Seq<char>)
    ensures
        0 <= place_of(s, key) <= s.len(),
        place_of(s, key) < s.len() ==> s[place_of(s, key)].pubkey_hex == key,
        forall|j: int| 0 <= j < place_of(s, key) ==> (#[trigger] s[j]).pubkey_hex != key,
    decreases s.len(),
{
    if s.len() > 0 && s[0].pubkey_hex != key {
        let t = s.drop_first();
        lemma_place_is_first(t, key);
        assert forall|j: int| 0 <= j < place_of(s, key) implies (#[trigger] s[j]).pubkey_hex
            != key by {
            if j > 0 {
                assert(s[j] == t[j - 1]);
            }
        }
    }
}

/// A whole key stands for itself, whoever is known; a short fingerprint stands
/// for the first known peer whose key has it, and for nobody if there is none.
/// Nothing else stands for anybody.
pub proof fn law_reference_stands_for_peer(s: Seq<settings::DmPeerModel>, query: Seq<char>)
    ensures
        ({
            let q = text::lowered(text::trimmed(query));
            let hex = forall|i: int| 0 <= i < q.len() ==> digest::is_hex_digit(#[trigger] q[i]);
            &&& hex && q.len() == 64 ==> resolved(s, query) == Some(q)
            &&& resolved(s, query) is Some ==> hex && (q.len() == 64 || q.len() == 16)
            &&& hex && q.len() == 16 ==> match resolved(s, query) {
                Some(key) => exists|i: int|
                    0 <= i < s.len() && (#[trigger] s[i]).pubkey_hex == key && fingerprint_of_hex(
                        key,
                    ) == q && forall|j: int|
                        0 <= j < i ==> fingerprint_of_hex((#[trigger] s[j]).pubkey_hex) != q,
                None => forall|i: int|
                    0 <= i < s.len() ==> fingerprint_of_hex((#[trigger] s[i]).pubkey_hex) != q,
            }
        }),
{
    lemma_with_fingerprint(s, text::lowered(text::trimmed(query)));
}

proof fn lemma_with_fingerprint(s: Seq<settings::DmPeerModel>, fp: Seq<char>)
    ensures
        match with_fingerprint(s, fp) {
            Some(key) => exists|i: int|
                0 <= i < s.len() && (#[trigger] s[i]).pubkey_hex == key && fingerprint_of_hex(key)
                    == fp && forall|j: int|
                    0 <= j < i ==> fingerprint_of_hex((#[trigger] s[j]).pubkey_hex) != fp,
            None => forall|i: int|
                0 <= i < s.len() ==> fingerprint_of_hex((#[trigger] s[i]).pubkey_hex) != fp,
        },
    decreases s.len(),
{
    if s.len() > 0 {
        if fingerprint_of_hex(s[0].pubkey_hex) == fp {
            assert(s[0].pubkey_hex == with_fingerprint(s, fp)->0);
        } else {
            let t = s.drop_first();
            lemma_with_fingerprint(t, fp);
            match with_fingerprint(t, fp) {
                Some(key) => {
                    let i = choose|i: int|
                        0 <= i < t.len() && (#[trigger] t[i]).pubkey_hex == key
                            && fingerprint_of_hex(key) == fp && forall|j: int|
                            0 <= j < i ==> fingerprint_of_hex((#[trigger] t[j]).pubkey_hex) != fp;
                    assert(s[i + 1] == t[i]);
                    assert forall|j: int| 0 <= j < i + 1 implies fingerprint_of_hex(
                        (#[trigger] s[j]).pubkey_hex,
                    ) != fp by {
                        if j > 0 {
                            assert(s[j] == t[j - 1]);
                        }
                    }
                },
                None => {
                    assert forall|i: int| 0 <= i < s.len() implies fingerprint_of_hex(
                        (#[trigger] s[i]).pubkey_hex,
                    ) != fp by {
                        if i > 0 {
                            assert(s[i] == t[i - 1]);
                        }
                    }
                },
            }
        }
    }
}

} // verus!
