//! Global hotkeys and what they do.

use vstd::prelude::*;

use crate::messages;
use crate::table::Table;
use crate::text;
use crate::text::{join2, owned, str_eq, to_lower};

verus! {

/// What a hotkey does.
#[derive(Debug, Clone, Copy, PartialEq, Eq, Structural)]
pub enum HotkeyAction {
    /// Mute or unmute.
    Mute,
    /// Unmute as long as the key is held.
    Ptt,
    /// Ask which channel to join.
    QuickJoin,
}

/// The name of an action.
pub open spec fn action_name(a: HotkeyAction) -> Seq<char> {
    match a {
        HotkeyAction::Mute => "mute"@,
        HotkeyAction::Ptt => "ptt"@,
        HotkeyAction::QuickJoin => "quick_join"@,
    }
}

/// The action that a name stands for, in either case.
pub open spec fn action_of(name: Seq<char>) -> Option<HotkeyAction> {
    let n = text::lowered(name);
    if n == "mute"@ {
        Some(HotkeyAction::Mute)
    } else if n == "ptt"@ {
        Some(HotkeyAction::Ptt)
    } else if n == "quick_join"@ || n == "quickjoin"@ || n == "join"@ {
        Some(HotkeyAction::QuickJoin)
    } else {
        None
    }
}

impl HotkeyAction {
    /// The action that a name stands for.
    pub fn parse(s: &str) -> (r: Option<Self>)
        ensures
            r == action_of(s@),
    {
        let n = to_lower(s);
        let n: &str = n.as_str();
        if str_eq(n, "mute") {
            Some(HotkeyAction::Mute)
        } else if str_eq(n, "ptt") {
            Some(HotkeyAction::Ptt)
        } else if str_eq(n, "quick_join") || str_eq(n, "quickjoin") || str_eq(n, "join") {
            Some(HotkeyAction::QuickJoin)
        } else {
            None
        }
    }

    /// The name of the action.
    pub fn as_str(self) -> (s: &'static str)
        ensures
            s@ == action_name(self),
    {
        match self {
            HotkeyAction::Mute => "mute",
            HotkeyAction::Ptt => "ptt",
            HotkeyAction::QuickJoin => "quick_join",
        }
    }
}

/// The name of an action stands for it.
pub proof fn law_action_names(a: HotkeyAction)
    ensures
        action_of(action_name(a)) == Some(a),
{
    reveal_strlit("mute");
    reveal_strlit("ptt");
    reveal_strlit("quick_join");
    reveal_strlit("quickjoin");
    reveal_strlit("join");
    assert(text::lowered(action_name(a)) =~= action_name(a));
    assert("mute"@.len() == 4 && "ptt"@.len() == 3 && "quick_join"@.len() == 10);
}

/// The action to bind and the key that it was bound to so far, which is to be
/// freed first.
pub fn rebinding(hotkeys: &Table<String, String>, action: &str) -> (r: Result<
    (HotkeyAction, Option<String>),
    String,
>)
    ensures
        match action_of(action@) {
            None => r matches Err(e) && e@ == "unknown action: "@ + action@,
            Some(a) => r matches Ok(p) && p.0 == a && messages::opt_text(p.1)
                == if hotkeys@.dom().contains(action_name(a)) {
                Some(hotkeys@[action_name(a)])
            } else {
                None
            },
        },
{
    match HotkeyAction::parse(action) {
        None => Err(join2("unknown action: ", action)),
        Some(a) => {
            let old = match hotkeys.get(&owned(a.as_str())) {
                Some(accel) => Some(accel.clone()),
                None => None,
            };
            Ok((a, old))
        },
    }
}

/// Binds a key to an action.
pub fn bind(hotkeys: &mut Table<String, String>, action: HotkeyAction, accel: &str)
    ensures
        final(hotkeys)@ == old(hotkeys)@.insert(action_name(action), accel@),
{
    hotkeys.insert(owned(action.as_str()), owned(accel));
}

/// Frees the key of an action and tells which one it was.
pub fn unbind(hotkeys: &mut Table<String, String>, action: &str) -> (r: Result<
    Option<String>,
    String,
>)
    ensures
        match action_of(action@) {
            None => {
                &&& r matches Err(e) && e@ == "unknown action: "@ + action@
                &&& final(hotkeys)@ == old(hotkeys)@
            },
            Some(a) => {
                &&& final(hotkeys)@ == old(hotkeys)@.remove(action_name(a))
                &&& r matches Ok(p) && messages::opt_text(p)
                    == if old(hotkeys)@.dom().contains(action_name(a)) {
                    Some(old(hotkeys)@[action_name(a)])
                } else {
                    None
                }
            },
        },
{
    match HotkeyAction::parse(action) {
        None => Err(join2("unknown action: ", action)),
        Some(a) => Ok(hotkeys.remove(&owned(a.as_str()))),
    }
}

/// The bindings of a table, in the order of its keys. What names no action is
/// left out.
pub open spec fn bindings_of(
    names: Seq<Seq<char>>,
    accels: Map<Seq<char>, Seq<char>>,
) -> Seq<(HotkeyAction, Seq<char>)>
    decreases names.len(),
{
    if names.len() == 0 {
        Seq::empty()
    } else {
        let before = bindings_of(names.drop_last(), accels);
        match action_of(names.last()) {
            Some(a) => before.push((a, accels[names.last()])),
            None => before,
        }
    }
}

/// What bindings stand for.
pub open spec fn bindings_view(bindings: Seq<(HotkeyAction, String)>) -> Seq<
    (HotkeyAction, Seq<char>),
> {
    bindings.map_values(|b: (HotkeyAction, String)| (b.0, b.1@))
}

/// The keys to register when the program starts, each with its action.
pub fn bindings(hotkeys: &Table<String, String>) -> (r: Vec<(HotkeyAction, String)>)
    ensures
        bindings_view(r@) == bindings_of(hotkeys.keys(), hotkeys@),
{
    let mut r: Vec<(HotkeyAction, String)> = Vec::new();
    let n: usize = hotkeys.len();
    let mut i: usize = 0;
    proof {
        assert(hotkeys.keys().take(0) =~= Seq::empty());
    }
    while i < n
        invariant
            i <= n,
            n == hotkeys.keys().len(),
            bindings_view(r@) == bindings_of(hotkeys.keys().take(i as int), hotkeys@),
        decreases n - i,
    {
        let (name, accel) = hotkeys.entry(i);
        let ghost before = r@;
        if let Some(a) = HotkeyAction::parse(name.as_str()) {
            r.push((a, accel.clone()));
            proof {
                assert(bindings_view(r@) =~= bindings_view(before).push((a, accel@)));
            }
        }
        proof {
            let names = hotkeys.keys().take(i + 1);
            assert(names.drop_last() =~= hotkeys.keys().take(i as int));
            assert(names.last() == name@);
        }
        i = i + 1;
    }
    proof {
        assert(hotkeys.keys().take(n as int) =~= hotkeys.keys());
    }
    r
}

/// The key that an action is bound to is among those to register.
pub proof fn law_bound_is_restored(
    names: Seq<Seq<char>>,
    accels: Map<Seq<char>, Seq<char>>,
    a: HotkeyAction,
)
    requires
        names.contains(action_name(a)),
    ensures
        bindings_of(names, accels).contains((a, accels[action_name(a)])),
    decreases names.len(),
{
    law_action_names(a);
    let before = bindings_of(names.drop_last(), accels);
    let all = bindings_of(names, accels);
    let b = (a, accels[action_name(a)]);
    if names.last() == action_name(a) {
        assert(all[all.len() - 1] == b);
    } else {
        let i = choose|i: int| 0 <= i < names.len() && names[i] == action_name(a);
        assert(names.drop_last()[i] == action_name(a));
        law_bound_is_restored(names.drop_last(), accels, a);
        let j = choose|j: int| 0 <= j < before.len() && before[j] == b;
        assert(all[j] == b);
    }
}

/// What a hotkey leads to besides the microphone.
#[derive(Debug, Clone, Copy, PartialEq, Eq, Structural)]
pub enum HotkeyEffect {
    Nothing,
    /// Tell that the microphone was muted.
    LogMuted,
    /// Tell that it was unmuted.
    LogUnmuted,
    /// Ask which channel to join.
    QuickJoin,
}

/// What a key does to the microphone, and what else it leads to.
pub open spec fn struck(muted: bool, action: HotkeyAction, pressed: bool) -> (bool, HotkeyEffect) {
    match action {
        HotkeyAction::Mute => if pressed {
            (
                !muted,
                if muted {
                    HotkeyEffect::LogUnmuted
                } else {
                    HotkeyEffect::LogMuted
                },
            )
        } else {
            (muted, HotkeyEffect::Nothing)
        },
        HotkeyAction::Ptt => (!pressed, HotkeyEffect::Nothing),
        HotkeyAction::QuickJoin => (
            muted,
            if pressed {
                HotkeyEffect::QuickJoin
            } else {
                HotkeyEffect::Nothing
            },
        ),
    }
}

/// Handles a key that was pressed or released: whether the microphone is muted
/// now, and what else is left to do.
pub fn on_hotkey(muted: bool, action: HotkeyAction, pressed: bool) -> (r: (bool, HotkeyEffect))
    ensures
        r == struck(muted, action, pressed),
{
    match (action, pressed) {
        (HotkeyAction::Mute, true) => if muted {
            (false, HotkeyEffect::LogUnmuted)
        } else {
            (true, HotkeyEffect::LogMuted)
        },
        (HotkeyAction::Ptt, true) => (false, HotkeyEffect::Nothing),
        (HotkeyAction::Ptt, false) => (true, HotkeyEffect::Nothing),
        (HotkeyAction::QuickJoin, true) => (muted, HotkeyEffect::QuickJoin),
        (_, false) => (muted, HotkeyEffect::Nothing),
    }
}

/// Push-to-talk: the microphone is open exactly while the key is held.
pub proof fn law_push_to_talk(muted: bool)
    ensures
        !struck(muted, HotkeyAction::Ptt, true).0,
        struck(struck(muted, HotkeyAction::Ptt, true).0, HotkeyAction::Ptt, false).0,
{
}

/// Pressing the mute key twice changes nothing.
pub proof fn law_mute_key_twice(muted: bool)
    ensures
        struck(struck(muted, HotkeyAction::Mute, true).0, HotkeyAction::Mute, true).0 == muted,
{
}

/// The mute key turns the microphone on and off when it is pressed, tells
/// which, and does nothing when it is let go.
pub proof fn law_mute_key_toggles(muted: bool)
    ensures
        struck(muted, HotkeyAction::Mute, true).0 == !muted,
        struck(true, HotkeyAction::Mute, true).1 == HotkeyEffect::LogUnmuted,
        struck(false, HotkeyAction::Mute, true).1 == HotkeyEffect::LogMuted,
        struck(muted, HotkeyAction::Mute, false) == (muted, HotkeyEffect::Nothing),
{
}

/// The key that asks for a channel asks once when it is pressed, and leaves the
/// microphone as it is.
pub proof fn law_quick_join_asks_once(muted: bool)
    ensures
        struck(muted, HotkeyAction::QuickJoin, true) == (muted, HotkeyEffect::QuickJoin),
        struck(muted, HotkeyAction::QuickJoin, false) == (muted, HotkeyEffect::Nothing),
        struck(muted, HotkeyAction::Ptt, true).1 == HotkeyEffect::Nothing,
        struck(muted, HotkeyAction::Ptt, false) == (true, HotkeyEffect::Nothing),
{
}

/// What is to be registered is bound: its action is named by a key of the
/// table, with that binding.
pub proof fn law_restored_is_bound(
    names: Seq<Seq<char>>,
    accels: Map<Seq<char>, Seq<char>>,
    i: int,
)
    requires
        0 <= i < bindings_of(names, accels).len(),
    ensures
        exists|k: int|
            0 <= k < names.len() && bindings_of(names, accels)[i].1 == accels[#[trigger] names[k]]
                && action_of(names[k]) == Some(bindings_of(names, accels)[i].0),
    decreases names.len(),
{
    let rest = names.drop_last();
    let before = bindings_of(rest, accels);
    if i < before.len() {
        law_restored_is_bound(rest, accels, i);
        let k = choose|k: int|
            0 <= k < rest.len() && before[i].1 == accels[#[trigger] rest[k]] && action_of(rest[k])
                == Some(before[i].0);
        assert(names[k] == rest[k]);
        assert(bindings_of(names, accels)[i] == before[i]);
    } else {
        assert(names[names.len() - 1] == names.last());
    }
}

} // verus!
