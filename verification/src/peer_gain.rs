//! How loud a listener plays each peer. Nobody else hears the difference.

use vstd::prelude::*;

use crate::config;
use crate::table::Table;
use crate::text::owned;

verus! {

/// The volume of each peer whose volume was changed, in percent.
pub struct PeerGains {
    map: Table<String, u32>,
}

impl View for PeerGains {
    type V = Map<Seq<char>, u32>;

    closed spec fn view(&self) -> Map<Seq<char>, u32> {
        self.map@
    }
}

/// A percentage within the limit.
pub open spec fn clamped(pct: u32) -> u32 {
    if pct <= config::PEER_VOL_MAX_PCT {
        pct
    } else {
        config::PEER_VOL_MAX_PCT
    }
}

/// What holds of the volumes at all times: none is over the limit, and none is
/// stored that changes nothing.
pub open spec fn valid(m: Map<Seq<char>, u32>) -> bool {
    forall|k: Seq<char>| #[trigger]
        m.dom().contains(k) ==> m[k] <= config::PEER_VOL_MAX_PCT && m[k] != 100
}

/// The volume of one peer was set.
pub open spec fn with_pct(m: Map<Seq<char>, u32>, name: Seq<char>, pct: u32) -> Map<
    Seq<char>,
    u32,
> {
    if clamped(pct) == 100 {
        m.remove(name)
    } else {
        m.insert(name, clamped(pct))
    }
}

/// The volumes that a list of settings leaves: those that change something,
/// within the limit.
pub open spec fn from_pcts(pcts: Map<Seq<char>, u32>) -> Map<Seq<char>, u32> {
    Map::new(
        |k: Seq<char>| pcts.dom().contains(k) && clamped(pcts[k]) != 100,
        |k: Seq<char>| clamped(pcts[k]),
    )
}

/// The volume of a peer, in percent.
pub open spec fn pct_of(m: Map<Seq<char>, u32>, name: Seq<char>) -> u32 {
    if m.dom().contains(name) {
        m[name]
    } else {
        100
    }
}

/// A peer changed its name and keeps its volume.
pub open spec fn with_rename(
    m: Map<Seq<char>, u32>,
    old_name: Seq<char>,
    new_name: Seq<char>,
) -> Map<Seq<char>, u32> {
    if m.dom().contains(old_name) {
        m.remove(old_name).insert(new_name, m[old_name])
    } else {
        m
    }
}

/// A percentage within the limit.
fn clamp_pct(pct: u32) -> (r: u32)
    ensures
        r == clamped(pct),
{
    if pct <= config::PEER_VOL_MAX_PCT {
        pct
    } else {
        config::PEER_VOL_MAX_PCT
    }
}

impl PeerGains {
    #[verifier::type_invariant]
    spec fn inv(self) -> bool {
        valid(self.map@)
    }

    /// No volume is changed.
    pub fn new() -> (g: Self)
        ensures
            g@ == Map::<Seq<char>, u32>::empty(),
    {
        PeerGains { map: Table::new() }
    }

    /// The volumes that were kept. Those over the limit are cut, and those
    /// that change nothing are dropped.
    pub fn from_pct_map(pcts: &Table<String, u32>) -> (g: Self)
        ensures
            g@ == from_pcts(pcts@),
    {
        let mut g = Self::new();
        g.set_all_from_pct(pcts);
        g
    }

    /// Replaces all volumes.
    pub fn set_all_from_pct(&mut self, pcts: &Table<String, u32>)
        ensures
            final(self)@ == from_pcts(pcts@),
    {
        let mut map: Table<String, u32> = Table::new();
        let n: usize = pcts.len();
        let mut i: usize = 0;
        assert(map@ =~= from_first(pcts@, pcts.keys(), 0));
        while i < n
            invariant
                i <= n == pcts.keys().len(),
                pcts.keys().no_duplicates(),
                pcts.keys().to_set() == pcts@.dom(),
                valid(map@),
                map@ == from_first(pcts@, pcts.keys(), i as int),
            decreases n - i,
        {
            let (name, pct) = pcts.entry(i);
            let p: u32 = clamp_pct(*pct);
            let ghost before = map@;
            if p != 100 {
                map.insert(name.clone(), p);
            }
            i = i + 1;
            proof {
                let keys = pcts.keys();
                assert forall|k: Seq<char>|
                    keys.subrange(0, i as int).contains(k) <==> keys.subrange(
                        0,
                        i - 1,
                    ).contains(k) || k == keys[i - 1] by {
                    let a = keys.subrange(0, i as int);
                    let b = keys.subrange(0, i - 1);
                    if a.contains(k) {
                        let j = choose|j: int| 0 <= j < a.len() && a[j] == k;
                        if j < i - 1 {
                            assert(b[j] == k);
                        }
                    }
                    if b.contains(k) {
                        let j = choose|j: int| 0 <= j < b.len() && b[j] == k;
                        assert(a[j] == k);
                    }
                    assert(a[i - 1] == keys[i - 1]);
                }
                assert(map@ =~= from_first(pcts@, keys, i as int));
            }
        }
        proof {
            let keys = pcts.keys();
            assert(keys.subrange(0, i as int) =~= keys);
            assert(from_first(pcts@, keys, i as int) =~= from_pcts(pcts@)) by {
                assert forall|k: Seq<char>| keys.contains(k) <==> pcts@.dom().contains(k) by {
                    assert(keys.to_set().contains(k) <==> keys.contains(k));
                }
            }
        }
        self.map = map;
    }

    /// The volume of a peer, in percent; 100 changes nothing.
    pub fn get(&self, name: &str) -> (pct: u32)
        ensures
            pct == pct_of(self@, name@),
            pct <= config::PEER_VOL_MAX_PCT,
    {
        proof {
            use_type_invariant(self);
        }
        match self.map.get(&owned(name)) {
            Some(p) => *p,
            None => 100,
        }
    }

    /// Sets the volume of a peer.
    pub fn set_pct(&mut self, name: &str, pct: u32)
        ensures
            final(self)@ == with_pct(old(self)@, name@, pct),
    {
        proof {
            use_type_invariant(&*self);
        }
        let p: u32 = clamp_pct(pct);
        let mut map: Table<String, u32> = Table::new();
        std::mem::swap(&mut map, &mut self.map);
        if p == 100 {
            let _old = map.remove(&owned(name));
        } else {
            map.insert(owned(name), p);
        }
        self.map = map;
    }

    /// Moves the volume of a peer to its new name.
    pub fn rename(&mut self, old_name: &str, new_name: &str)
        ensures
            final(self)@ == with_rename(old(self)@, old_name@, new_name@),
    {
        proof {
            use_type_invariant(&*self);
        }
        let mut map: Table<String, u32> = Table::new();
        std::mem::swap(&mut map, &mut self.map);
        if let Some(p) = map.remove(&owned(old_name)) {
            map.insert(owned(new_name), p);
        } else {
            assert(map@ =~= old(self)@);
        }
        self.map = map;
    }

    /// The volumes that differ from 100, to be kept and shown.
    pub fn pct_map(&self) -> (m: Table<String, u32>)
        ensures
            m@ == self@,
            valid(m@),
    {
        proof {
            use_type_invariant(self);
        }
        self.map.duplicate()
    }
}

/// The volumes that the first `n` names of a list leave.
spec fn from_first(pcts: Map<Seq<char>, u32>, keys: Seq<Seq<char>>, n: int) -> Map<
    Seq<char>,
    u32,
> {
    Map::new(
        |k: Seq<char>| keys.subrange(0, n).contains(k) && clamped(pcts[k]) != 100,
        |k: Seq<char>| clamped(pcts[k]),
    )
}

/// What is kept comes back unchanged.
pub proof fn law_gains_survive(m: Map<Seq<char>, u32>)
    requires
        valid(m),
    ensures
        from_pcts(m) == m,
{
    assert(from_pcts(m) =~= m);
}

/// A peer keeps its volume when it changes its name, and nobody else's changes.
pub proof fn law_rename_keeps_gain(
    m: Map<Seq<char>, u32>,
    old_name: Seq<char>,
    new_name: Seq<char>,
    other: Seq<char>,
)
    requires
        m.dom().contains(old_name),
        other != old_name,
        other != new_name,
    ensures
        pct_of(with_rename(m, old_name, new_name), new_name) == pct_of(m, old_name),
        pct_of(with_rename(m, old_name, new_name), other) == pct_of(m, other),
        old_name != new_name ==> pct_of(with_rename(m, old_name, new_name), old_name) == 100,
{
}

/// A peer is played as loud as was set, up to the limit, and nobody else is
/// played louder or softer for it.
pub proof fn law_gain_is_set(
    m: Map<Seq<char>, u32>,
    name: Seq<char>,
    pct: u32,
    other: Seq<char>,
)
    requires
        other != name,
    ensures
        pct <= config::PEER_VOL_MAX_PCT ==> pct_of(with_pct(m, name, pct), name) == pct,
        pct > config::PEER_VOL_MAX_PCT ==> pct_of(with_pct(m, name, pct), name)
            == config::PEER_VOL_MAX_PCT,
        pct_of(with_pct(m, name, pct), other) == pct_of(m, other),
        valid(m) ==> valid(with_pct(m, name, pct)),
{
}

/// The volumes that were kept are those that are played, up to the limit;
/// everybody else is played as they are.
pub proof fn law_kept_gains_are_played(pcts: Map<Seq<char>, u32>, name: Seq<char>)
    ensures
        !pcts.dom().contains(name) ==> pct_of(from_pcts(pcts), name) == 100,
        pcts.dom().contains(name) && pcts[name] <= config::PEER_VOL_MAX_PCT ==> pct_of(
            from_pcts(pcts),
            name,
        ) == pcts[name],
        pcts.dom().contains(name) && pcts[name] > config::PEER_VOL_MAX_PCT ==> pct_of(
            from_pcts(pcts),
            name,
        ) == config::PEER_VOL_MAX_PCT,
        valid(from_pcts(pcts)),
{
}

} // verus!
