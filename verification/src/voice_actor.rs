//! Supervision of voice and of the audio devices in the desktop client.

use vstd::prelude::*;

use crate::config;
use crate::desktop;
use crate::desktop::StartParams;
use crate::events::EchoResult;
use crate::messages;
use crate::state::copy_text;
use crate::table::KeySet;
use crate::text::{owned, str_eq};

verus! {

/// An audio device that was plugged in.
#[derive(Debug)]
pub struct NewDevice {
    /// Whether it is a microphone; otherwise it is a loudspeaker.
    pub is_input: bool,
    pub name: String,
}

/// What a list of new devices says.
pub open spec fn news(v: Seq<NewDevice>) -> Seq<(bool, Seq<char>)> {
    v.map_values(|d: NewDevice| (d.is_input, d.name@))
}

/// A device to open anew: a microphone or a loudspeaker, by its name or the one
/// that the system prefers.
#[derive(Debug, PartialEq, Eq)]
pub struct Reopen {
    pub is_input: bool,
    pub name: Option<String>,
}

/// What a list of devices to open says.
pub open spec fn reopens(v: Seq<Reopen>) -> Seq<(bool, Option<Seq<char>>)> {
    v.map_values(|r: Reopen| (r.is_input, messages::opt_text(r.name)))
}

/// The devices of a call: those that the system prefers and those that are open.
#[derive(Debug)]
pub struct CallDevices {
    pub default_input: Option<String>,
    pub open_input: Option<String>,
    pub default_output: Option<String>,
    pub open_output: Option<String>,
}

/// What [`CallDevices`] say.
#[verifier::ext_equal]
pub struct CallDevicesView {
    pub default_input: Option<Seq<char>>,
    pub open_input: Option<Seq<char>>,
    pub default_output: Option<Seq<char>>,
    pub open_output: Option<Seq<char>>,
}

impl View for CallDevices {
    type V = CallDevicesView;

    open spec fn view(&self) -> CallDevicesView {
        CallDevicesView {
            default_input: messages::opt_text(self.default_input),
            open_input: messages::opt_text(self.open_input),
            default_output: messages::opt_text(self.default_output),
            open_output: messages::opt_text(self.open_output),
        }
    }
}

/// What the devices of a call, if there is one, say.
pub open spec fn opt_devices(o: Option<CallDevices>) -> Option<CallDevicesView> {
    match o {
        Some(d) => Some(d@),
        None => None,
    }
}

/// Whether voice is to move to the device that the system now prefers: the
/// user left the choice to the system, and another device is open.
pub open spec fn follows(
    desired: Option<Seq<char>>,
    preferred: Option<Seq<char>>,
    open: Option<Seq<char>>,
) -> bool {
    desired is None && match (preferred, open) {
        (Some(p), Some(o)) => p != o,
        _ => false,
    }
}

/// Supervises the audio devices.
pub struct Supervisor {
    desired_input: Option<String>,
    desired_output: Option<String>,
    last_capture_attempt: Option<u64>,
    last_playback_attempt: Option<u64>,
    last_device_poll: Option<u64>,
    known_inputs: KeySet<String>,
    known_outputs: KeySet<String>,
    polled: bool,
    rebuilds: u32,
    pending_new_devices: Vec<NewDevice>,
}

/// What a [`Supervisor`] holds. Times are in milliseconds.
#[verifier::ext_equal]
pub struct SupervisorView {
    /// The chosen microphone; the system's choice where there is none.
    pub desired_input: Option<Seq<char>>,
    /// The chosen loudspeaker.
    pub desired_output: Option<Seq<char>>,
    /// When a microphone was last tried.
    pub last_capture_attempt: Option<u64>,
    /// When a loudspeaker was last tried.
    pub last_playback_attempt: Option<u64>,
    /// When the devices were last looked at.
    pub last_device_poll: Option<u64>,
    /// The microphones of the last look.
    pub known_inputs: Set<Seq<char>>,
    /// The loudspeakers of the last look.
    pub known_outputs: Set<Seq<char>>,
    /// Whether there was a look yet.
    pub polled: bool,
    /// How often a device was opened anew.
    pub rebuilds: u32,
    /// The new devices that nobody was told of yet.
    pub pending: Seq<(bool, Seq<char>)>,
}

impl View for Supervisor {
    type V = SupervisorView;

    closed spec fn view(&self) -> SupervisorView {
        SupervisorView {
            desired_input: messages::opt_text(self.desired_input),
            desired_output: messages::opt_text(self.desired_output),
            last_capture_attempt: self.last_capture_attempt,
            last_playback_attempt: self.last_playback_attempt,
            last_device_poll: self.last_device_poll,
            known_inputs: self.known_inputs@,
            known_outputs: self.known_outputs@,
            polled: self.polled,
            rebuilds: self.rebuilds,
            pending: news(self.pending_new_devices@),
        }
    }
}

/// Whether enough time has passed since the last attempt, if there was one.
pub open spec fn elapsed(last: Option<u64>, now: u64, interval: u64) -> bool {
    match last {
        Some(t) => now - t >= interval,
        None => true,
    }
}

/// Whether enough time has passed since the last attempt.
fn has_elapsed(last: Option<u64>, now: u64, interval: u64) -> (r: bool)
    requires
        interval > 0,
    ensures
        r == elapsed(last, now, interval),
{
    match last {
        Some(t) => now >= t && now - t >= interval,
        None => true,
    }
}

/// The names in a list that are not known yet, each of them once.
pub open spec fn fresh(list: Seq<Seq<char>>, known: Set<Seq<char>>) -> Seq<Seq<char>>
    decreases list.len(),
{
    if list.len() == 0 {
        Seq::empty()
    } else {
        let rest = fresh(list.drop_last(), known);
        if known.contains(list.last()) || list.drop_last().contains(list.last()) {
            rest
        } else {
            rest.push(list.last())
        }
    }
}

/// The new devices that the user is to be told of: those that they have not
/// chosen before.
pub open spec fn unchosen(
    names: Seq<Seq<char>>,
    is_input: bool,
    desired: Option<Seq<char>>,
) -> Seq<(bool, Seq<char>)>
    decreases names.len(),
{
    if names.len() == 0 {
        Seq::empty()
    } else {
        let rest = unchosen(names.drop_last(), is_input, desired);
        if desired == Some(names.last()) {
            rest
        } else {
            rest.push((is_input, names.last()))
        }
    }
}

/// The new devices that the user has chosen before: they are opened at once.
pub open spec fn chosen(
    names: Seq<Seq<char>>,
    is_input: bool,
    desired: Option<Seq<char>>,
) -> Seq<(bool, Seq<char>)>
    decreases names.len(),
{
    if names.len() == 0 {
        Seq::empty()
    } else {
        let rest = chosen(names.drop_last(), is_input, desired);
        if desired == Some(names.last()) {
            rest.push((is_input, names.last()))
        } else {
            rest
        }
    }
}

impl SupervisorView {
    /// Nothing was tried or seen yet.
    pub open spec fn fresh_for(input: Option<Seq<char>>, output: Option<Seq<char>>) -> Self {
        SupervisorView {
            desired_input: input,
            desired_output: output,
            last_capture_attempt: None,
            last_playback_attempt: None,
            last_device_poll: None,
            known_inputs: Set::empty(),
            known_outputs: Set::empty(),
            polled: false,
            rebuilds: 0,
            pending: Seq::empty(),
        }
    }

    /// The devices were looked at, in a call or not: what is known then, and
    /// which devices are to be opened.
    pub open spec fn looked(
        self,
        inputs: Seq<Seq<char>>,
        outputs: Seq<Seq<char>>,
        in_call: bool,
    ) -> (SupervisorView, Seq<(bool, Seq<char>)>) {
        let new_in = fresh(inputs, self.known_inputs);
        let new_out = fresh(outputs, self.known_outputs);
        (
            SupervisorView {
                known_inputs: inputs.to_set(),
                known_outputs: outputs.to_set(),
                polled: true,
                pending: if self.polled {
                    self.pending + unchosen(new_in, true, self.desired_input) + unchosen(
                        new_out,
                        false,
                        self.desired_output,
                    )
                } else {
                    self.pending
                },
                ..self
            },
            if self.polled && in_call {
                chosen(new_in, true, self.desired_input) + chosen(
                    new_out,
                    false,
                    self.desired_output,
                )
            } else {
                Seq::empty()
            },
        )
    }
}

/// The list of a device where it is to be opened, an empty one otherwise.
pub open spec fn where_due(
    due: bool,
    is_input: bool,
    name: Option<Seq<char>>,
) -> Seq<(bool, Option<Seq<char>>)> {
    if due {
        seq![(is_input, name)]
    } else {
        Seq::empty()
    }
}

impl SupervisorView {
    /// A pass over the devices begins, in a call whose microphone and
    /// loudspeaker work or not, or outside of one: what fails is opened anew
    /// from time to time, and the devices are looked at from time to time.
    pub open spec fn ticked(self, works: Option<(bool, bool)>, now: u64) -> (
        SupervisorView,
        Seq<(bool, Option<Seq<char>>)>,
        bool,
    ) {
        let capture = works matches Some(w) && !w.0 && elapsed(
            self.last_capture_attempt,
            now,
            config::VOICE_RESTART_MIN_INTERVAL_MS,
        );
        let playback = works matches Some(w) && !w.1 && elapsed(
            self.last_playback_attempt,
            now,
            config::VOICE_RESTART_MIN_INTERVAL_MS,
        );
        let poll = elapsed(self.last_device_poll, now, config::DEVICE_POLL_INTERVAL_MS);
        (
            SupervisorView {
                last_capture_attempt: if capture {
                    Some(now)
                } else {
                    self.last_capture_attempt
                },
                last_playback_attempt: if playback {
                    Some(now)
                } else {
                    self.last_playback_attempt
                },
                last_device_poll: if poll {
                    Some(now)
                } else {
                    self.last_device_poll
                },
                ..self
            },
            where_due(capture, true, self.desired_input) + where_due(
                playback,
                false,
                self.desired_output,
            ),
            poll,
        )
    }

    /// The devices were looked at: a call moves to what the system prefers,
    /// where the user left it the choice, and to chosen devices that came back.
    pub open spec fn surveyed(
        self,
        call: Option<CallDevicesView>,
        inputs: Seq<Seq<char>>,
        outputs: Seq<Seq<char>>,
    ) -> (SupervisorView, Seq<(bool, Option<Seq<char>>)>) {
        let (after, back) = self.looked(inputs, outputs, call is Some);
        let moved = match call {
            Some(d) => where_due(
                follows(self.desired_input, d.default_input, d.open_input),
                true,
                None,
            ) + where_due(
                follows(self.desired_output, d.default_output, d.open_output),
                false,
                None,
            ),
            None => Seq::empty(),
        };
        (after, moved + back.map_values(|b: (bool, Seq<char>)| (b.0, Some(b.1))))
    }
}

/// The set of the names in a list.
fn name_set(list: &Vec<String>) -> (s: KeySet<String>)
    ensures
        s@ == messages::texts(list@).to_set(),
{
    let ghost all = messages::texts(list@);
    let mut s: KeySet<String> = KeySet::new();
    let mut i: usize = 0;
    assert(s@ =~= all.subrange(0, 0).to_set());
    while i < list.len()
        invariant
            i <= list@.len(),
            all == messages::texts(list@),
            s@ == all.subrange(0, i as int).to_set(),
        decreases list.len() - i,
    {
        let ghost before = s@;
        s.insert(list[i].clone());
        i = i + 1;
        proof {
            let a = all.subrange(0, i - 1);
            let b = all.subrange(0, i as int);
            assert(b =~= a.push(all[i - 1]));
            assert(all[i - 1] == list@[i - 1]@);
            assert forall|x: Seq<char>| #[trigger] s@.contains(x) <==> b.to_set().contains(x) by {
                crate::table::lemma_push_contains(a, all[i - 1]);
                assert(a.push(all[i - 1]).contains(x) <==> a.contains(x) || x == all[i - 1]);
            }
            assert(s@ =~= b.to_set());
        }
    }
    assert(all.subrange(0, i as int) =~= all);
    s
}

/// Tells the new devices of a list apart: those that the user has chosen before
/// and the others.
fn sort_news(
    list: &Vec<String>,
    known: &KeySet<String>,
    is_input: bool,
    desired: &Option<String>,
    told: &mut Vec<NewDevice>,
    opened: &mut Vec<NewDevice>,
)
    ensures
        ({
            let names = fresh(messages::texts(list@), known@);
            let want = messages::opt_text(*desired);
            &&& news(final(told)@) == news(old(told)@) + unchosen(names, is_input, want)
            &&& news(final(opened)@) == news(old(opened)@) + chosen(names, is_input, want)
        }),
{
    let ghost all = messages::texts(list@);
    let ghost want = messages::opt_text(*desired);
    let mut seen: KeySet<String> = KeySet::new();
    let mut i: usize = 0;
    proof {
        let empty = fresh(all.subrange(0, 0), known@);
        assert(news(told@) =~= news(old(told)@) + unchosen(empty, is_input, want));
        assert(news(opened@) =~= news(old(opened)@) + chosen(empty, is_input, want));
        assert(seen@ =~= all.subrange(0, 0).to_set());
    }
    while i < list.len()
        invariant
            i <= list@.len(),
            all == messages::texts(list@),
            want == messages::opt_text(*desired),
            seen@ == all.subrange(0, i as int).to_set(),
            news(told@) == news(old(told)@) + unchosen(
                fresh(all.subrange(0, i as int), known@),
                is_input,
                want,
            ),
            news(opened@) == news(old(opened)@) + chosen(
                fresh(all.subrange(0, i as int), known@),
                is_input,
                want,
            ),
        decreases list.len() - i,
    {
        let name = list[i].clone();
        let is_new = !known.contains(&name) && !seen.contains(&name);
        seen.insert(name.clone());
        let ghost a = all.subrange(0, i as int);
        let ghost b = all.subrange(0, i + 1);
        let ghost told_before = news(told@);
        let ghost opened_before = news(opened@);
        proof {
            assert(all[i as int] == name@);
            assert(b.drop_last() =~= a);
            assert(b.last() == name@);
            assert(b =~= a.push(name@));
            crate::table::lemma_push_contains(a, name@);
            assert forall|x: Seq<char>| #[trigger] seen@.contains(x) <==> b.to_set().contains(
                x,
            ) by {
                assert(a.push(name@).contains(x) <==> a.contains(x) || x == name@);
            }
            assert(seen@ =~= b.to_set());
            assert(a.to_set().contains(name@) <==> a.contains(name@));
            if is_new {
                assert(fresh(b, known@) == fresh(a, known@).push(name@));
                assert(fresh(b, known@).drop_last() =~= fresh(a, known@));
                assert(fresh(b, known@).last() == name@);
            } else {
                assert(fresh(b, known@) == fresh(a, known@));
            }
        }
        if is_new {
            let configured = match desired {
                Some(d) => str_eq(d.as_str(), name.as_str()),
                None => false,
            };
            let device = NewDevice { is_input, name };
            let ghost item = (is_input, device.name@);
            if configured {
                opened.push(device);
                assert(news(opened@) =~= opened_before.push(item));
                assert(news(opened@) =~= news(old(opened)@) + chosen(
                    fresh(b, known@),
                    is_input,
                    want,
                ));
            } else {
                told.push(device);
                assert(news(told@) =~= told_before.push(item));
                assert(news(told@) =~= news(old(told)@) + unchosen(
                    fresh(b, known@),
                    is_input,
                    want,
                ));
            }
        }
        i = i + 1;
    }
    assert(all.subrange(0, i as int) =~= all);
}

impl Supervisor {
    /// Nothing was tried or seen yet.
    pub fn new(input: Option<String>, output: Option<String>) -> (s: Self)
        ensures
            s@ == SupervisorView::fresh_for(messages::opt_text(input), messages::opt_text(output)),
    {
        let s = Supervisor {
            desired_input: input,
            desired_output: output,
            last_capture_attempt: None,
            last_playback_attempt: None,
            last_device_poll: None,
            known_inputs: KeySet::new(),
            known_outputs: KeySet::new(),
            polled: false,
            rebuilds: 0,
            pending_new_devices: Vec::new(),
        };
        assert(s@ =~= SupervisorView::fresh_for(
            messages::opt_text(input),
            messages::opt_text(output),
        ));
        s
    }

    /// The chosen microphone.
    pub fn desired_input(&self) -> (d: Option<String>)
        ensures
            messages::opt_text(d) == self@.desired_input,
    {
        copy_text(&self.desired_input)
    }

    /// The chosen loudspeaker.
    pub fn desired_output(&self) -> (d: Option<String>)
        ensures
            messages::opt_text(d) == self@.desired_output,
    {
        copy_text(&self.desired_output)
    }

    /// Whether the microphone, which works or not, is to be opened anew now.
    pub fn capture_due(&mut self, works: bool, now: u64) -> (r: bool)
        ensures
            r == (!works && elapsed(
                old(self)@.last_capture_attempt,
                now,
                config::VOICE_RESTART_MIN_INTERVAL_MS,
            )),
            final(self)@ == if r {
                SupervisorView { last_capture_attempt: Some(now), ..old(self)@ }
            } else {
                old(self)@
            },
    {
        if !works && has_elapsed(
            self.last_capture_attempt,
            now,
            config::VOICE_RESTART_MIN_INTERVAL_MS,
        ) {
            self.last_capture_attempt = Some(now);
            return true;
        }
        false
    }

    /// Whether the loudspeaker, which works or not, is to be opened anew now.
    pub fn playback_due(&mut self, works: bool, now: u64) -> (r: bool)
        ensures
            r == (!works && elapsed(
                old(self)@.last_playback_attempt,
                now,
                config::VOICE_RESTART_MIN_INTERVAL_MS,
            )),
            final(self)@ == if r {
                SupervisorView { last_playback_attempt: Some(now), ..old(self)@ }
            } else {
                old(self)@
            },
    {
        if !works && has_elapsed(
            self.last_playback_attempt,
            now,
            config::VOICE_RESTART_MIN_INTERVAL_MS,
        ) {
            self.last_playback_attempt = Some(now);
            return true;
        }
        false
    }

    /// A device was opened anew.
    pub fn rebuilt(&mut self)
        ensures
            final(self)@ == (SupervisorView {
                rebuilds: if old(self)@.rebuilds < u32::MAX {
                    (old(self)@.rebuilds + 1) as u32
                } else {
                    u32::MAX
                },
                ..old(self)@
            }),
    {
        self.rebuilds = self.rebuilds.saturating_add(1);
    }

    /// How often a device was opened anew.
    pub fn rebuilds(&self) -> (n: u32)
        ensures
            n == self@.rebuilds,
    {
        self.rebuilds
    }

    /// Whether the devices are to be looked at now.
    pub fn poll_due(&mut self, now: u64) -> (r: bool)
        ensures
            r == elapsed(old(self)@.last_device_poll, now, config::DEVICE_POLL_INTERVAL_MS),
            final(self)@ == if r {
                SupervisorView { last_device_poll: Some(now), ..old(self)@ }
            } else {
                old(self)@
            },
    {
        if has_elapsed(self.last_device_poll, now, config::DEVICE_POLL_INTERVAL_MS) {
            self.last_device_poll = Some(now);
            return true;
        }
        false
    }

    /// Takes in the devices that are there now, and tells which of them are to
    /// be opened: those that the user has chosen and that came back in a call.
    /// The first look tells of nothing.
    pub fn look(&mut self, inputs: &Vec<String>, outputs: &Vec<String>, in_call: bool) -> (r: Vec<
        NewDevice,
    >)
        ensures
            (final(self)@, news(r@)) == old(self)@.looked(
                messages::texts(inputs@),
                messages::texts(outputs@),
                in_call,
            ),
    {
        let mut opened: Vec<NewDevice> = Vec::new();
        assert(news(opened@) =~= Seq::empty());
        if self.polled {
            let mut told: Vec<NewDevice> = Vec::new();
            std::mem::swap(&mut told, &mut self.pending_new_devices);
            sort_news(
                inputs,
                &self.known_inputs,
                true,
                &self.desired_input,
                &mut told,
                &mut opened,
            );
            sort_news(
                outputs,
                &self.known_outputs,
                false,
                &self.desired_output,
                &mut told,
                &mut opened,
            );
            self.pending_new_devices = told;
        }
        self.known_inputs = name_set(inputs);
        self.known_outputs = name_set(outputs);
        self.polled = true;
        if !in_call {
            opened = Vec::new();
            assert(news(opened@) =~= Seq::empty());
        }
        proof {
            let want = old(self)@.looked(
                messages::texts(inputs@),
                messages::texts(outputs@),
                in_call,
            );
            assert(self@ =~= want.0);
            assert(news(opened@) =~= want.1);
        }
        opened
    }

    /// Begins a pass over the devices: which are to be opened anew, and whether
    /// the devices are to be looked at with `survey` after that.
    pub fn tick(&mut self, works: Option<(bool, bool)>, now: u64) -> (r: (Vec<Reopen>, bool))
        ensures
            (final(self)@, reopens(r.0@), r.1) == old(self)@.ticked(works, now),
    {
        let mut v: Vec<Reopen> = Vec::new();
        if let Some((capture_works, playback_works)) = works {
            if self.capture_due(capture_works, now) {
                v.push(Reopen { is_input: true, name: self.desired_input() });
            }
            if self.playback_due(playback_works, now) {
                v.push(Reopen { is_input: false, name: self.desired_output() });
            }
        }
        let poll = self.poll_due(now);
        proof {
            let want = old(self)@.ticked(works, now);
            assert(self@ =~= want.0);
            assert(reopens(v@) =~= want.1);
        }
        (v, poll)
    }

    /// Takes in the devices that are there now and, in a call, those in use:
    /// which are to be opened anew.
    pub fn survey(
        &mut self,
        call: &Option<CallDevices>,
        inputs: &Vec<String>,
        outputs: &Vec<String>,
    ) -> (r: Vec<Reopen>)
        ensures
            (final(self)@, reopens(r@)) == old(self)@.surveyed(
                opt_devices(*call),
                messages::texts(inputs@),
                messages::texts(outputs@),
            ),
    {
        let mut v: Vec<Reopen> = Vec::new();
        if let Some(d) = call {
            if follows_default(&self.desired_input, &d.default_input, &d.open_input) {
                v.push(Reopen { is_input: true, name: None });
            }
            if follows_default(&self.desired_output, &d.default_output, &d.open_output) {
                v.push(Reopen { is_input: false, name: None });
            }
        }
        let ghost moved = reopens(v@);
        let back = self.look(inputs, outputs, call.is_some());
        let ghost named = news(back@).map_values(|b: (bool, Seq<char>)| (b.0, Some(b.1)));
        let mut i: usize = 0;
        proof {
            assert(reopens(v@) =~= moved + named.take(0));
        }
        while i < back.len()
            invariant
                i <= back@.len(),
                named == news(back@).map_values(|b: (bool, Seq<char>)| (b.0, Some(b.1))),
                reopens(v@) == moved + named.take(i as int),
            decreases back.len() - i,
        {
            let ghost before = reopens(v@);
            v.push(Reopen { is_input: back[i].is_input, name: Some(back[i].name.clone()) });
            i = i + 1;
            proof {
                assert(named[i - 1] == (back@[i - 1].is_input, Some(back@[i - 1].name@)));
                assert(reopens(v@) =~= before.push(named[i - 1]));
                assert(reopens(v@) =~= moved + named.take(i as int));
            }
        }
        proof {
            let want = old(self)@.surveyed(
                opt_devices(*call),
                messages::texts(inputs@),
                messages::texts(outputs@),
            );
            assert(named.take(i as int) =~= named);
            assert(reopens(v@) =~= want.1);
        }
        v
    }

    /// The new devices that nobody was told of yet.
    pub fn take_new_devices(&mut self) -> (v: Vec<NewDevice>)
        ensures
            news(v@) == old(self)@.pending,
            final(self)@ == (SupervisorView { pending: Seq::empty(), ..old(self)@ }),
    {
        let mut v: Vec<NewDevice> = Vec::new();
        std::mem::swap(&mut v, &mut self.pending_new_devices);
        assert(self@ =~= (SupervisorView { pending: Seq::empty(), ..old(self)@ }));
        v
    }
}

/// Whether voice is to move to the device that the system now prefers: the
/// user left the choice to the system, and another device is open.
pub fn follows_default(desired: &Option<String>, preferred: &Option<String>, open: &Option<String>)
    -> (r: bool)
    ensures
        r == follows(
            messages::opt_text(*desired),
            messages::opt_text(*preferred),
            messages::opt_text(*open),
        ),
{
    if desired.is_some() {
        return false;
    }
    match (preferred, open) {
        (Some(p), Some(o)) => !str_eq(p.as_str(), o.as_str()),
        _ => false,
    }
}

/// Outside a call no device is opened, and in one whose devices work and are
/// the ones that the user chose, none is either.
pub proof fn law_settled_devices_stay(
    s: SupervisorView,
    d: CallDevicesView,
    inputs: Seq<Seq<char>>,
    outputs: Seq<Seq<char>>,
    now: u64,
)
    requires
        s.known_inputs == inputs.to_set(),
        s.known_outputs == outputs.to_set(),
        s.desired_input is Some || d.open_input == d.default_input,
        s.desired_output is Some || d.open_output == d.default_output,
    ensures
        s.ticked(None, now).1.len() == 0,
        s.surveyed(None, inputs, outputs).1.len() == 0,
        s.ticked(Some((true, true)), now).1.len() == 0,
        s.surveyed(Some(d), inputs, outputs).1.len() == 0,
{
    lemma_fresh_unknown(inputs, s.known_inputs);
    lemma_fresh_unknown(outputs, s.known_outputs);
    let new_in = fresh(inputs, s.known_inputs);
    let new_out = fresh(outputs, s.known_outputs);
    assert(new_in.len() == 0) by {
        if new_in.len() > 0 {
            assert(inputs.to_set().contains(new_in[0]));
        }
    }
    assert(new_out.len() == 0) by {
        if new_out.len() > 0 {
            assert(outputs.to_set().contains(new_out[0]));
        }
    }
}

/// The first look at the devices tells of none of them.
pub proof fn law_first_look_is_silent(
    s: SupervisorView,
    inputs: Seq<Seq<char>>,
    outputs: Seq<Seq<char>>,
    in_call: bool,
)
    requires
        !s.polled,
    ensures
        s.looked(inputs, outputs, in_call).0.pending == s.pending,
        s.looked(inputs, outputs, in_call).1.len() == 0,
{
}

proof fn lemma_fresh_unknown(list: Seq<Seq<char>>, known: Set<Seq<char>>)
    ensures
        forall|i: int|
            0 <= i < fresh(list, known).len() ==> !known.contains(#[trigger] fresh(list, known)[i])
                && list.contains(fresh(list, known)[i]),
    decreases list.len(),
{
    if list.len() > 0 {
        let rest = list.drop_last();
        lemma_fresh_unknown(rest, known);
        let f = fresh(list, known);
        assert forall|i: int| 0 <= i < f.len() implies !known.contains(#[trigger] f[i])
            && list.contains(f[i]) by {
            if i < fresh(rest, known).len() {
                assert(f[i] == fresh(rest, known)[i]);
                let j = choose|j: int| 0 <= j < rest.len() && rest[j] == f[i];
                assert(list[j] == f[i]);
            } else {
                assert(list[list.len() - 1] == f[i]);
            }
        }
    }
}

/// A device that was there at the last look is not told of again.
pub proof fn law_known_device_is_not_new(list: Seq<Seq<char>>, known: Set<Seq<char>>)
    requires
        forall|i: int| 0 <= i < list.len() ==> known.contains(#[trigger] list[i]),
    ensures
        fresh(list, known).len() == 0,
{
    lemma_fresh_unknown(list, known);
    if fresh(list, known).len() > 0 {
        let x = fresh(list, known)[0];
        let j = choose|j: int| 0 <= j < list.len() && list[j] == x;
        assert(known.contains(list[j]));
    }
}

/// A device that the user has chosen is opened, and they are not asked.
pub proof fn law_chosen_device_is_not_asked_for(
    names: Seq<Seq<char>>,
    is_input: bool,
    name: Seq<char>,
    i: int,
)
    requires
        0 <= i < unchosen(names, is_input, Some(name)).len(),
    ensures
        unchosen(names, is_input, Some(name))[i] != (is_input, name),
    decreases names.len(),
{
    let rest = unchosen(names.drop_last(), is_input, Some(name));
    if i < rest.len() {
        law_chosen_device_is_not_asked_for(names.drop_last(), is_input, name, i);
    }
}

/// The outcome of a sound check.
pub fn echo_result(mic_ok: bool, output_ok: bool, registered: bool, bytes: u64) -> (r: EchoResult)
    ensures
        r == (EchoResult {
            mic_ok,
            output_ok,
            registered,
            roundtrip_ok: bytes > 0,
            bytes_received: bytes,
        }),
{
    EchoResult { mic_ok, output_ok, registered, roundtrip_ok: bytes > 0, bytes_received: bytes }
}

/// Which voice is reported on.
#[derive(Debug, Clone, Copy, PartialEq, Eq, Structural)]
pub enum Source {
    Call,
    SoundCheck,
    Nothing,
}

/// Runs the voice of a call or of a sound check.
pub struct VoiceActor {
    in_call: bool,
    in_echo: bool,
    last_params: Option<StartParams>,
    last_restart: Option<u64>,
    sup: Supervisor,
}

/// What a [`VoiceActor`] holds.
#[verifier::ext_equal]
pub struct ActorView {
    /// Whether a call runs.
    pub in_call: bool,
    /// Whether a sound check runs.
    pub in_echo: bool,
    /// How to start the call, while there should be one.
    pub last_params: Option<desktop::StartParamsView>,
    /// When a failed call was last started again.
    pub last_restart: Option<u64>,
    /// The devices.
    pub sup: SupervisorView,
}

/// What optional parameters say.
pub open spec fn opt_start(o: Option<StartParams>) -> Option<desktop::StartParamsView> {
    match o {
        Some(p) => Some(p@),
        None => None,
    }
}

impl View for VoiceActor {
    type V = ActorView;

    closed spec fn view(&self) -> ActorView {
        ActorView {
            in_call: self.in_call,
            in_echo: self.in_echo,
            last_params: opt_start(self.last_params),
            last_restart: self.last_restart,
            sup: self.sup@,
        }
    }
}

impl ActorView {
    /// Whether a call that should run but does not is to be started again, and
    /// what is remembered of that.
    pub open spec fn restarted(self, now: u64) -> (ActorView, bool) {
        let due = !self.in_call && !self.in_echo && self.last_params is Some && elapsed(
            self.last_restart,
            now,
            config::VOICE_RESTART_MIN_INTERVAL_MS,
        );
        (
            if due {
                ActorView { last_restart: Some(now), ..self }
            } else {
                self
            },
            due,
        )
    }

    /// A call is to be started.
    pub open spec fn starting(self, p: desktop::StartParamsView) -> ActorView {
        ActorView {
            in_call: false,
            in_echo: self.in_echo,
            last_params: Some(p),
            last_restart: None,
            sup: SupervisorView::fresh_for(p.input_device, p.output_device),
        }
    }
}

impl VoiceActor {
    /// Nothing runs.
    pub fn new() -> (a: Self)
        ensures
            a@ == (ActorView {
                in_call: false,
                in_echo: false,
                last_params: None,
                last_restart: None,
                sup: SupervisorView::fresh_for(None, None),
            }),
    {
        VoiceActor {
            in_call: false,
            in_echo: false,
            last_params: None,
            last_restart: None,
            sup: Supervisor::new(None, None),
        }
    }

    /// The devices.
    pub fn supervisor(&mut self) -> (s: &mut Supervisor)
        ensures
            s@ == old(self)@.sup,
            final(self)@ == (ActorView { sup: final(s)@, ..old(self)@ }),
    {
        &mut self.sup
    }

    /// A call is to be started; one that runs is dropped first. What came of
    /// it is then told to `call_started`.
    pub fn start(&mut self, p: StartParams)
        ensures
            final(self)@ == (ActorView {
                in_call: false,
                in_echo: old(self)@.in_echo,
                last_params: Some(p@),
                last_restart: None,
                sup: SupervisorView::fresh_for(p@.input_device, p@.output_device),
            }),
            final(self)@ == old(self)@.starting(p@),
    {
        self.in_call = false;
        self.last_restart = None;
        self.sup = Supervisor::new(copy_text(&p.input_device), copy_text(&p.output_device));
        self.last_params = Some(p);
    }

    /// How to start the call.
    pub fn params(&self) -> (p: Option<&StartParams>)
        ensures
            match p {
                Some(s) => self@.last_params == Some(s@),
                None => self@.last_params is None,
            },
    {
        match &self.last_params {
            Some(p) => Some(p),
            None => None,
        }
    }

    /// The call was started, or could not be.
    pub fn call_started(&mut self, ok: bool)
        ensures
            final(self)@ == (ActorView { in_call: ok, ..old(self)@ }),
    {
        self.in_call = ok;
    }

    /// The call is over.
    pub fn stop(&mut self)
        ensures
            final(self)@ == (ActorView { in_call: false, last_params: None, ..old(self)@ }),
    {
        self.in_call = false;
        self.last_params = None;
    }

    /// A sound check was started, or could not be.
    pub fn echo_started(&mut self, ok: bool)
        ensures
            final(self)@ == (ActorView { in_echo: ok, ..old(self)@ }),
    {
        self.in_echo = ok;
    }

    /// The sound check is over: its outcome, as sampled before, or nothing if
    /// none ran.
    pub fn echo_stop(&mut self, sample: EchoResult) -> (r: EchoResult)
        ensures
            final(self)@ == (ActorView { in_echo: false, ..old(self)@ }),
            r == if old(self)@.in_echo {
                sample
            } else {
                EchoResult {
                    mic_ok: false,
                    output_ok: false,
                    registered: false,
                    roundtrip_ok: false,
                    bytes_received: 0,
                }
            },
    {
        let ran = self.in_echo;
        self.in_echo = false;
        if ran {
            sample
        } else {
            echo_result(false, false, false, 0)
        }
    }

    /// A microphone was chosen: whether it is to be opened now.
    pub fn set_input_device(&mut self, name: Option<String>) -> (r: bool)
        ensures
            r == old(self)@.in_call,
            final(self)@ == (ActorView {
                sup: SupervisorView {
                    desired_input: messages::opt_text(name),
                    ..old(self)@.sup
                },
                ..old(self)@
            }),
    {
        self.sup.desired_input = name;
        self.in_call
    }

    /// A loudspeaker was chosen: whether it is to be opened now.
    pub fn set_output_device(&mut self, name: Option<String>) -> (r: bool)
        ensures
            r == old(self)@.in_call,
            final(self)@ == (ActorView {
                sup: SupervisorView {
                    desired_output: messages::opt_text(name),
                    ..old(self)@.sup
                },
                ..old(self)@
            }),
    {
        self.sup.desired_output = name;
        self.in_call
    }

    /// Whether a call that should run but does not is to be started again now.
    pub fn restart_due(&mut self, now: u64) -> (r: bool)
        ensures
            r == (!old(self)@.in_call && !old(self)@.in_echo && old(self)@.last_params is Some
                && elapsed(
                old(self)@.last_restart,
                now,
                config::VOICE_RESTART_MIN_INTERVAL_MS,
            )),
            final(self)@ == if r {
                ActorView { last_restart: Some(now), ..old(self)@ }
            } else {
                old(self)@
            },
            (final(self)@, r) == old(self)@.restarted(now),
    {
        if !self.in_call && !self.in_echo && self.last_params.is_some() && has_elapsed(
            self.last_restart,
            now,
            config::VOICE_RESTART_MIN_INTERVAL_MS,
        ) {
            self.last_restart = Some(now);
            return true;
        }
        false
    }

    /// Which voice is reported on: the call before the sound check.
    pub fn reported(&self) -> (s: Source)
        ensures
            s == if self@.in_call {
                Source::Call
            } else if self@.in_echo {
                Source::SoundCheck
            } else {
                Source::Nothing
            },
    {
        if self.in_call {
            Source::Call
        } else if self.in_echo {
            Source::SoundCheck
        } else {
            Source::Nothing
        }
    }

    /// The report on the voice that runs, with the new devices that nobody was
    /// told of yet. Without any voice the report is an idle one.
    pub fn snapshot(&mut self, stats: Option<VoiceStats>) -> (s: VoiceSnapshot)
        ensures
            final(self)@ == (ActorView {
                sup: SupervisorView { pending: Seq::empty(), ..old(self)@.sup },
                ..old(self)@
            }),
            news(s.new_devices@) == old(self)@.sup.pending,
            match stats {
                Some(v) => {
                    &&& s.active
                    &&& s.stats == v
                    &&& s.device_restarts == old(self)@.sup.rebuilds
                },
                None => {
                    &&& !s.active
                    &&& s.device_restarts == 0
                    &&& s.stats.is_idle()
                },
            },
    {
        let new_devices = self.sup.take_new_devices();
        match stats {
            Some(v) => VoiceSnapshot {
                active: true,
                stats: v,
                device_restarts: self.sup.rebuilds,
                new_devices,
            },
            None => VoiceSnapshot {
                active: false,
                stats: VoiceStats::idle(),
                device_restarts: 0,
                new_devices,
            },
        }
    }
}

/// What is reported of a voice that runs. Levels are in thousandths of full
/// scale, rates in bytes per second.
pub struct VoiceStats {
    pub loss_percent: u8,
    pub tier: String,
    pub speaker_levels: Vec<(String, u32)>,
    pub tx_rate: u64,
    pub rx_rate: u64,
    pub input_peak: u32,
    pub registered: bool,
    pub capture_ok: bool,
    pub playback_ok: bool,
}

impl VoiceStats {
    /// What is reported when no voice runs.
    pub open spec fn is_idle(&self) -> bool {
        &&& self.loss_percent == 0
        &&& self.tier@ == "—"@
        &&& self.speaker_levels@.len() == 0
        &&& self.tx_rate == 0
        &&& self.rx_rate == 0
        &&& self.input_peak == 0
        &&& self.registered
        &&& self.capture_ok
        &&& self.playback_ok
    }

    /// What is reported when no voice runs.
    pub fn idle() -> (v: Self)
        ensures
            v.is_idle(),
    {
        VoiceStats {
            loss_percent: 0,
            tier: owned("—"),
            speaker_levels: Vec::new(),
            tx_rate: 0,
            rx_rate: 0,
            input_peak: 0,
            registered: true,
            capture_ok: true,
            playback_ok: true,
        }
    }
}

/// A report on the voice.
pub struct VoiceSnapshot {
    pub active: bool,
    pub stats: VoiceStats,
    /// How often a device was opened anew in this call.
    pub device_restarts: u32,
    pub new_devices: Vec<NewDevice>,
}

/// A call that failed to start is tried again, but not in the middle of a sound
/// check, and not again before the interval is over.
pub proof fn law_restart_is_throttled(a: ActorView, now: u64, later: u64)
    requires
        now <= later < now + config::VOICE_RESTART_MIN_INTERVAL_MS,
    ensures
        !elapsed(
            (ActorView { last_restart: Some(now), ..a }).last_restart,
            later,
            config::VOICE_RESTART_MIN_INTERVAL_MS,
        ),
{
}

/// What the window is told about voice at regular intervals.
pub struct LevelPump {
    last_muted: Option<bool>,
    was_active: bool,
}

/// What the window is told.
#[derive(Debug, Clone, Copy, PartialEq, Eq, Structural)]
pub struct PumpTick {
    /// The microphone was muted or unmuted.
    pub muted_changed: bool,
    /// The levels.
    pub level: bool,
    /// The voice has stopped.
    pub stopped: bool,
}

/// What the window is told when it was last told `told`.
pub open spec fn pumped(told: (Option<bool>, bool), muted: bool, active: bool) -> PumpTick {
    PumpTick {
        muted_changed: told.0 != Some(muted),
        level: active,
        stopped: told.1 && !active,
    }
}

/// The state of the microphone is told at first and whenever it changes, the
/// levels exactly while voice runs, and its end exactly once.
pub proof fn law_window_is_told_once(
    told: (Option<bool>, bool),
    muted: bool,
    active: bool,
    muted_next: bool,
    active_next: bool,
)
    ensures
        pumped((None, false), muted, active).muted_changed,
        pumped((Some(muted), active), muted_next, active_next).muted_changed <==> muted
            != muted_next,
        pumped(told, muted, active).level <==> active,
        pumped((Some(muted), true), muted_next, false).stopped,
        !pumped((Some(muted), false), muted_next, active_next).stopped,
        !pumped(told, muted, true).stopped,
{
}

impl LevelPump {
    /// What was told last: whether the microphone is muted, and whether voice
    /// runs.
    pub closed spec fn told(&self) -> (Option<bool>, bool) {
        (self.last_muted, self.was_active)
    }

    /// Nothing was told yet.
    pub fn new() -> (p: Self)
        ensures
            p.told() == (None::<bool>, false),
    {
        LevelPump { last_muted: None, was_active: false }
    }

    /// Whether the microphone is muted is told when it changes, the levels as
    /// long as voice runs, and its end once.
    pub fn tick(&mut self, muted: bool, active: bool) -> (t: PumpTick)
        ensures
            final(self).told() == (Some(muted), active),
            t == (PumpTick {
                muted_changed: old(self).told().0 != Some(muted),
                level: active,
                stopped: old(self).told().1 && !active,
            }),
            t == pumped(old(self).told(), muted, active),
    {
        let muted_changed = match self.last_muted {
            Some(m) => m != muted,
            None => true,
        };
        let stopped = self.was_active && !active;
        self.last_muted = Some(muted);
        self.was_active = active;
        PumpTick { muted_changed, level: active, stopped }
    }
}

/// A call that should run but does not is started again at once and then after
/// every interval, until it runs or is given up. While it runs, during a sound
/// check, or when no call should run, nothing is started.
pub proof fn law_failed_call_is_restarted(a: ActorView, now: u64, later: u64)
    requires
        now <= later,
    ensures
        a.in_call || a.in_echo || a.last_params is None ==> a.restarted(now) == (a, false),
        !a.in_call && !a.in_echo && a.last_params is Some && a.last_restart is None ==> a.restarted(
            now,
        ).1,
        a.restarted(now).1 ==> (a.restarted(now).0.restarted(later).1 <==> later - now
            >= config::VOICE_RESTART_MIN_INTERVAL_MS),
        a.restarted(now).0.last_params == a.last_params,
{
}

/// A call that is to be started uses the devices that it names, and what was
/// known of the devices of an earlier call is forgotten.
pub proof fn law_call_uses_its_devices(a: ActorView, p: desktop::StartParamsView, now: u64)
    ensures
        a.starting(p).last_params == Some(p),
        a.starting(p).sup.desired_input == p.input_device,
        a.starting(p).sup.desired_output == p.output_device,
        !a.starting(p).in_call,
        a.starting(p).sup.rebuilds == 0,
        !a.in_echo ==> a.starting(p).restarted(now).1,
{
}

/// In a call, a microphone or a loudspeaker that does not work is opened anew,
/// the one that the user chose, at once and then after every interval; one that
/// works is not.
pub proof fn law_failed_device_is_reopened(
    s: SupervisorView,
    capture: bool,
    playback: bool,
    now: u64,
    later: u64,
)
    requires
        now <= later,
    ensures
        ({
            let (after, due, _) = s.ticked(Some((capture, playback)), now);
            let again = after.ticked(Some((capture, playback)), later).1;
            &&& !capture && s.last_capture_attempt is None ==> due.contains(
                (true, s.desired_input),
            )
            &&& !playback && s.last_playback_attempt is None ==> due.contains(
                (false, s.desired_output),
            )
            &&& capture ==> !due.contains((true, s.desired_input))
            &&& playback ==> !due.contains((false, s.desired_output))
            &&& due.contains((true, s.desired_input)) ==> (again.contains((true, s.desired_input))
                <==> later - now >= config::VOICE_RESTART_MIN_INTERVAL_MS)
            &&& due.contains((false, s.desired_output)) ==> (again.contains(
                (false, s.desired_output),
            ) <==> later - now >= config::VOICE_RESTART_MIN_INTERVAL_MS)
        }),
{
    let (after, due, _) = s.ticked(Some((capture, playback)), now);
    lemma_due(s, capture, playback, now);
    lemma_due(after, capture, playback, later);
}

proof fn lemma_due(s: SupervisorView, capture: bool, playback: bool, now: u64)
    ensures
        ({
            let due = s.ticked(Some((capture, playback)), now).1;
            &&& due.contains((true, s.desired_input)) <==> !capture && elapsed(
                s.last_capture_attempt,
                now,
                config::VOICE_RESTART_MIN_INTERVAL_MS,
            )
            &&& due.contains((false, s.desired_output)) <==> !playback && elapsed(
                s.last_playback_attempt,
                now,
                config::VOICE_RESTART_MIN_INTERVAL_MS,
            )
        }),
{
    let due = s.ticked(Some((capture, playback)), now).1;
    let c = !capture && elapsed(
        s.last_capture_attempt,
        now,
        config::VOICE_RESTART_MIN_INTERVAL_MS,
    );
    let p = !playback && elapsed(
        s.last_playback_attempt,
        now,
        config::VOICE_RESTART_MIN_INTERVAL_MS,
    );
    if c {
        assert(due[0] == (true, s.desired_input));
        if p {
            assert(due[1] == (false, s.desired_output));
        }
    } else if p {
        assert(due[0] == (false, s.desired_output));
    }
}

/// The devices are looked at at once and then after every interval.
pub proof fn law_devices_are_polled(
    s: SupervisorView,
    works: Option<(bool, bool)>,
    now: u64,
    later: u64,
)
    requires
        now <= later,
    ensures
        s.last_device_poll is None ==> s.ticked(works, now).2,
        s.ticked(works, now).2 ==> (s.ticked(works, now).0.ticked(works, later).2 <==> later - now
            >= config::DEVICE_POLL_INTERVAL_MS),
{
}

/// The new names of a list are those that were not known, each of them once.
pub proof fn law_new_names(list: Seq<Seq<char>>, known: Set<Seq<char>>, name: Seq<char>)
    ensures
        fresh(list, known).contains(name) <==> list.contains(name) && !known.contains(name),
        fresh(list, known).no_duplicates(),
    decreases list.len(),
{
    if list.len() > 0 {
        let rest = list.drop_last();
        let x = list.last();
        law_new_names(rest, known, name);
        law_new_names(rest, known, x);
        assert(list =~= rest.push(x));
        crate::table::lemma_push_contains(rest, x);
        assert(list.contains(name) <==> rest.contains(name) || name == x);
        if !known.contains(x) && !rest.contains(x) {
            let f = fresh(rest, known);
            crate::table::lemma_push_contains(f, x);
            assert(f.push(x).contains(name) <==> f.contains(name) || name == x);
        }
    }
}

/// After the first look, a microphone that was plugged in is told of once; one
/// that the user chose before is not told of but opened, if a call runs. The
/// same holds of loudspeakers.
pub proof fn law_new_device_is_noticed(
    s: SupervisorView,
    inputs: Seq<Seq<char>>,
    outputs: Seq<Seq<char>>,
    in_call: bool,
    name: Seq<char>,
)
    requires
        s.polled,
    ensures
        ({
            let (after, opened) = s.looked(inputs, outputs, in_call);
            &&& inputs.contains(name) && !s.known_inputs.contains(name) && s.desired_input != Some(
                name,
            ) ==> after.pending.contains((true, name))
            &&& inputs.contains(name) && !s.known_inputs.contains(name) && s.desired_input == Some(
                name,
            ) && in_call ==> opened.contains((true, name))
            &&& outputs.contains(name) && !s.known_outputs.contains(name) && s.desired_output
                != Some(name) ==> after.pending.contains((false, name))
            &&& outputs.contains(name) && !s.known_outputs.contains(name) && s.desired_output
                == Some(name) && in_call ==> opened.contains((false, name))
            &&& !in_call ==> opened.len() == 0
            &&& after.known_inputs.contains(name) <==> inputs.contains(name)
            &&& after.known_outputs.contains(name) <==> outputs.contains(name)
            &&& after.pending.len() >= s.pending.len() && after.pending.subrange(
                0,
                s.pending.len() as int,
            ) == s.pending
        }),
{
    let (after, opened) = s.looked(inputs, outputs, in_call);
    let new_in = fresh(inputs, s.known_inputs);
    let new_out = fresh(outputs, s.known_outputs);
    law_new_names(inputs, s.known_inputs, name);
    law_new_names(outputs, s.known_outputs, name);
    lemma_sorted(new_in, true, s.desired_input, name);
    lemma_sorted(new_out, false, s.desired_output, name);
    let ui = unchosen(new_in, true, s.desired_input);
    let uo = unchosen(new_out, false, s.desired_output);
    let ci = chosen(new_in, true, s.desired_input);
    let co = chosen(new_out, false, s.desired_output);
    let n = s.pending.len() as int;
    if ui.contains((true, name)) {
        let k = choose|k: int| 0 <= k < ui.len() && ui[k] == (true, name);
        assert(after.pending[n + k] == (true, name));
    }
    if uo.contains((false, name)) {
        let k = choose|k: int| 0 <= k < uo.len() && uo[k] == (false, name);
        assert(after.pending[n + ui.len() + k] == (false, name));
    }
    if in_call {
        if ci.contains((true, name)) {
            let k = choose|k: int| 0 <= k < ci.len() && ci[k] == (true, name);
            assert(opened[k] == (true, name));
        }
        if co.contains((false, name)) {
            let k = choose|k: int| 0 <= k < co.len() && co[k] == (false, name);
            assert(opened[ci.len() + k] == (false, name));
        }
    }
    assert(after.pending.subrange(0, n) =~= s.pending);
}

proof fn lemma_sorted(
    names: Seq<Seq<char>>,
    is_input: bool,
    desired: Option<Seq<char>>,
    name: Seq<char>,
)
    ensures
        unchosen(names, is_input, desired).contains((is_input, name)) <==> names.contains(name)
            && desired != Some(name),
        chosen(names, is_input, desired).contains((is_input, name)) <==> names.contains(name)
            && desired == Some(name),
    decreases names.len(),
{
    if names.len() > 0 {
        let rest = names.drop_last();
        let x = names.last();
        lemma_sorted(rest, is_input, desired, name);
        assert(names =~= rest.push(x));
        crate::table::lemma_push_contains(rest, x);
        assert(names.contains(name) <==> rest.contains(name) || name == x);
        let u = unchosen(rest, is_input, desired);
        let c = chosen(rest, is_input, desired);
        crate::table::lemma_push_contains(u, (is_input, x));
        crate::table::lemma_push_contains(c, (is_input, x));
        assert(u.push((is_input, x)).contains((is_input, name)) <==> u.contains((is_input, name))
            || name == x);
        assert(c.push((is_input, x)).contains((is_input, name)) <==> c.contains((is_input, name))
            || name == x);
    }
}

/// A call moves to the device that the system prefers exactly when the user
/// left the choice to the system and another device is open.
pub proof fn law_call_follows_the_system(
    desired: Option<Seq<char>>,
    preferred: Seq<char>,
    open: Seq<char>,
)
    ensures
        follows(None, Some(preferred), Some(open)) <==> preferred != open,
        desired is Some ==> !follows(desired, Some(preferred), Some(open)),
        !follows(desired, None, Some(open)),
        !follows(desired, Some(preferred), None),
{
}

} // verus!
