//! Audio devices, and samples on their way from and to them.

use std::collections::VecDeque;

use vstd::prelude::*;

use crate::config;
use crate::messages;
use crate::text;
use crate::text::{join3, str_eq};

verus! {

/// An audio device.
#[derive(Debug)]
pub struct DeviceInfo {
    pub index: usize,
    pub name: String,
    pub is_default: bool,
}

/// What a [`DeviceInfo`] says.
#[verifier::ext_equal]
pub struct DeviceInfoView {
    pub index: usize,
    pub name: Seq<char>,
    pub is_default: bool,
}

impl View for DeviceInfo {
    type V = DeviceInfoView;

    open spec fn view(&self) -> DeviceInfoView {
        DeviceInfoView { index: self.index, name: self.name@, is_default: self.is_default }
    }
}

/// What a list of devices says.
pub open spec fn device_views(v: Seq<DeviceInfo>) -> Seq<DeviceInfoView> {
    v.map_values(|d: DeviceInfo| d@)
}

/// The names that a list of devices reports; some report none.
pub open spec fn opt_texts(v: Seq<Option<String>>) -> Seq<Option<Seq<char>>> {
    v.map_values(|o: Option<String>| messages::opt_text(o))
}

/// The devices that report a name, with their places in the list.
pub open spec fn named_devices(
    names: Seq<Option<Seq<char>>>,
    default_name: Seq<char>,
) -> Seq<DeviceInfoView>
    decreases names.len(),
{
    if names.len() == 0 {
        Seq::empty()
    } else {
        let rest = named_devices(names.drop_last(), default_name);
        match names.last() {
            Some(name) => rest.push(
                DeviceInfoView {
                    index: (names.len() - 1) as usize,
                    name,
                    is_default: name == default_name,
                },
            ),
            None => rest,
        }
    }
}

/// The devices among the enumerated ones that report a name. The one whose
/// name is that of the default device is marked.
pub fn list_devices(names: &Vec<Option<String>>, default_name: &str) -> (devices: Vec<DeviceInfo>)
    ensures
        device_views(devices@) == named_devices(opt_texts(names@), default_name@),
{
    let mut devices: Vec<DeviceInfo> = Vec::new();
    let mut i: usize = 0;
    assert(device_views(devices@) =~= Seq::empty());
    while i < names.len()
        invariant
            i <= names@.len(),
            device_views(devices@) == named_devices(
                opt_texts(names@).subrange(0, i as int),
                default_name@,
            ),
        decreases names.len() - i,
    {
        let ghost before = device_views(devices@);
        if let Some(name) = &names[i] {
            let device = DeviceInfo {
                index: i,
                name: name.clone(),
                is_default: str_eq(name.as_str(), default_name),
            };
            devices.push(device);
            assert(device_views(devices@) =~= before.push(device@));
        }
        i = i + 1;
        proof {
            let s = opt_texts(names@).subrange(0, i as int);
            assert(s.drop_last() =~= opt_texts(names@).subrange(0, i - 1));
            assert(s.last() == messages::opt_text(names@[i - 1]));
        }
    }
    assert(opt_texts(names@).subrange(0, i as int) =~= opt_texts(names@));
    devices
}

/// The first device with the given index.
pub open spec fn at_index(devices: Seq<DeviceInfoView>, index: usize) -> Option<Seq<char>>
    decreases devices.len(),
{
    if devices.len() == 0 {
        None
    } else if devices[0].index == index {
        Some(devices[0].name)
    } else {
        at_index(devices.drop_first(), index)
    }
}

/// The name of the device with the given index.
pub fn name_at_index(devices: &Vec<DeviceInfo>, index: usize) -> (name: Option<String>)
    ensures
        messages::opt_text(name) == at_index(device_views(devices@), index),
{
    let mut i: usize = 0;
    assert(device_views(devices@).subrange(0, devices@.len() as int) =~= device_views(devices@));
    while i < devices.len()
        invariant
            i <= devices@.len(),
            at_index(device_views(devices@).subrange(i as int, devices@.len() as int), index)
                == at_index(device_views(devices@), index),
        decreases devices.len() - i,
    {
        proof {
            let s = device_views(devices@).subrange(i as int, devices@.len() as int);
            assert(s[0] == devices@[i as int]@);
            assert(s.drop_first() =~= device_views(devices@).subrange(
                i + 1,
                devices@.len() as int,
            ));
        }
        if devices[i].index == index {
            return Some(devices[i].name.clone());
        }
        i = i + 1;
    }
    None
}

/// The first place in the list whose device reports the given name.
pub open spec fn place_of(names: Seq<Option<Seq<char>>>, name: Seq<char>) -> Option<int>
    decreases names.len(),
{
    if names.len() == 0 {
        None
    } else {
        match place_of(names.drop_last(), name) {
            Some(i) => Some(i),
            None => if names.last() == Some(name) {
                Some(names.len() - 1)
            } else {
                None
            },
        }
    }
}

/// The device to open: the first one with the given name, or the default one.
#[derive(Debug, PartialEq, Eq)]
pub enum DeviceChoice {
    /// The default device.
    Standard,
    /// The device at this place in the list.
    Place(usize),
}

/// Chooses the device to open: the first one that has the wanted name, or the
/// default one when no name is wanted.
pub fn choose_device(
    kind: &str,
    wanted: Option<&str>,
    names: &Vec<Option<String>>,
    default_exists: bool,
) -> (r: Result<DeviceChoice, String>)
    ensures
        match wanted {
            Some(name) => match place_of(opt_texts(names@), name@) {
                Some(i) => r matches Ok(DeviceChoice::Place(p)) && p == i,
                None => r matches Err(e) && e@ == kind@ + " device '"@ + name@ + "' not found"@,
            },
            None => if default_exists {
                r matches Ok(DeviceChoice::Standard)
            } else {
                r matches Err(e) && e@ == "no "@ + kind@ + " device available"@
            },
        },
{
    match wanted {
        Some(name) => {
            let mut i: usize = 0;
            while i < names.len()
                invariant
                    i <= names@.len(),
                    wanted == Some(name),
                    place_of(opt_texts(names@).subrange(0, i as int), name@) is None,
                decreases names.len() - i,
            {
                let hit = match &names[i] {
                    Some(n) => str_eq(n.as_str(), name),
                    None => false,
                };
                proof {
                    let s = opt_texts(names@).subrange(0, i + 1);
                    assert(s.drop_last() =~= opt_texts(names@).subrange(0, i as int));
                    assert(s.last() == messages::opt_text(names@[i as int]));
                    if hit {
                        lemma_place_of_prefix(opt_texts(names@), i + 1, name@);
                    }
                }
                if hit {
                    return Ok(DeviceChoice::Place(i));
                }
                i = i + 1;
            }
            assert(opt_texts(names@).subrange(0, i as int) =~= opt_texts(names@));
            Err(text::join4(kind, " device '", name, "' not found"))
        },
        None => if default_exists {
            Ok(DeviceChoice::Standard)
        } else {
            Err(join3("no ", kind, " device available"))
        },
    }
}

proof fn lemma_place_of_prefix(names: Seq<Option<Seq<char>>>, n: int, name: Seq<char>)
    requires
        0 <= n <= names.len(),
        place_of(names.subrange(0, n), name) is Some,
    ensures
        place_of(names, name) == place_of(names.subrange(0, n), name),
    decreases names.len(),
{
    if n < names.len() {
        assert(names.drop_last().subrange(0, n) =~= names.subrange(0, n));
        lemma_place_of_prefix(names.drop_last(), n, name);
    } else {
        assert(names.subrange(0, n) =~= names);
    }
}

/// The number of samples at a device's rate that make one frame, rounded to
/// the nearest.
pub fn device_frame_size(rate: u32) -> (n: usize)
    ensures
        n == (rate + 25) / 50,
        rate == config::SAMPLE_RATE ==> n == config::FRAME_SIZE,
{
    ((rate as u64 + 25) / 50) as usize
}

/// How many samples at a device's rate a bound at the standard rate allows.
pub fn latency_cap(cap: u32, rate: u32) -> (n: u64)
    ensures
        n == (cap * rate) / config::SAMPLE_RATE as int,
        rate == config::SAMPLE_RATE ==> n == cap,
{
    assert(cap * rate <= u32::MAX * u32::MAX) by (nonlinear_arith)
        requires
            cap <= u32::MAX,
            rate <= u32::MAX,
    ;
    assert(0 <= cap * rate) by (nonlinear_arith)
        requires
            0 <= cap,
            0 <= rate,
    ;
    if rate == config::SAMPLE_RATE {
        assert(cap * rate == cap * 48000) by (nonlinear_arith)
            requires
                rate == 48000,
        ;
        return cap as u64;
    }
    cap as u64 * rate as u64 / config::SAMPLE_RATE as u64
}

/// The full chunks of `n` samples that a stream starts with.
pub open spec fn full_chunks<T>(s: Seq<T>, n: int) -> Seq<Seq<T>>
    decreases s.len(),
{
    if n <= 0 || s.len() < n {
        Seq::empty()
    } else {
        seq![s.subrange(0, n)] + full_chunks(s.subrange(n, s.len() as int), n)
    }
}

/// What is left of a stream after its full chunks of `n` samples.
pub open spec fn after_chunks<T>(s: Seq<T>, n: int) -> Seq<T>
    decreases s.len(),
{
    if n <= 0 || s.len() < n {
        s
    } else {
        after_chunks(s.subrange(n, s.len() as int), n)
    }
}

/// Chunks in a row.
pub open spec fn concatenated<T>(chunks: Seq<Seq<T>>) -> Seq<T>
    decreases chunks.len(),
{
    if chunks.len() == 0 {
        Seq::empty()
    } else {
        chunks[0] + concatenated(chunks.drop_first())
    }
}

/// No sample is lost and none changes its place: the chunks and what is left
/// are the stream, and what is left is less than a chunk.
pub proof fn law_chunks_lose_nothing<T>(s: Seq<T>, n: int)
    requires
        n > 0,
    ensures
        concatenated(full_chunks(s, n)) + after_chunks(s, n) == s,
        after_chunks(s, n).len() < n,
    decreases s.len(),
{
    if s.len() < n {
        assert(concatenated(full_chunks(s, n)) + after_chunks(s, n) =~= s);
    } else {
        let rest = s.subrange(n, s.len() as int);
        law_chunks_lose_nothing(rest, n);
        let all = full_chunks(s, n);
        assert(all[0] == s.subrange(0, n));
        assert(all.drop_first() =~= full_chunks(rest, n));
        assert(concatenated(all) + after_chunks(s, n) =~= s.subrange(0, n) + (concatenated(
            full_chunks(rest, n),
        ) + after_chunks(rest, n)));
        assert(s.subrange(0, n) + rest =~= s);
    }
}

/// It does not matter in what portions the samples arrive.
pub proof fn law_portions_do_not_matter<T>(a: Seq<T>, b: Seq<T>, n: int)
    requires
        n > 0,
    ensures
        full_chunks(a + b, n) == full_chunks(a, n) + full_chunks(after_chunks(a, n) + b, n),
        after_chunks(a + b, n) == after_chunks(after_chunks(a, n) + b, n),
    decreases a.len(),
{
    if a.len() < n {
        assert(full_chunks(a, n) + full_chunks(a + b, n) =~= full_chunks(a + b, n));
    } else {
        let rest = a.subrange(n, a.len() as int);
        law_portions_do_not_matter(rest, b, n);
        assert((a + b).subrange(0, n) =~= a.subrange(0, n));
        assert((a + b).subrange(n, (a + b).len() as int) =~= rest + b);
        assert(full_chunks(a + b, n) =~= full_chunks(a, n) + full_chunks(
            after_chunks(a, n) + b,
            n,
        ));
    }
}

/// The contents of a list of chunks.
pub open spec fn chunk_views<T>(v: Seq<Vec<T>>) -> Seq<Seq<T>> {
    v.map_values(|c: Vec<T>| c@)
}

/// Captured samples on their way into frames.
pub struct Chunker<T: Copy> {
    pending: VecDeque<T>,
    size: usize,
}

impl<T: Copy> Chunker<T> {
    /// The samples that do not make a chunk yet.
    pub closed spec fn pending(&self) -> Seq<T> {
        self.pending@
    }

    /// The number of samples in a chunk.
    pub closed spec fn size(&self) -> usize {
        self.size
    }

    #[verifier::type_invariant]
    spec fn inv(self) -> bool {
        self.size > 0
    }

    /// Makes chunks of `size` samples.
    pub fn new(size: usize) -> (c: Self)
        requires
            size > 0,
        ensures
            c.size() == size,
            c.pending() == Seq::<T>::empty(),
    {
        Chunker { pending: VecDeque::new(), size }
    }

    /// Takes samples and returns the chunks that they complete.
    pub fn feed(&mut self, data: &[T]) -> (chunks: Vec<Vec<T>>)
        ensures
            final(self).size() == old(self).size(),
            chunk_views(chunks@) == full_chunks(
                old(self).pending() + data@,
                old(self).size() as int,
            ),
            final(self).pending() == after_chunks(
                old(self).pending() + data@,
                old(self).size() as int,
            ),
    {
        proof {
            use_type_invariant(&*self);
        }
        let size: usize = self.size;
        let mut queue: VecDeque<T> = VecDeque::new();
        std::mem::swap(&mut queue, &mut self.pending);
        let ghost all = queue@ + data@;
        let mut i: usize = 0;
        assert(queue@ + data@.subrange(0, 0) =~= queue@);
        while i < data.len()
            invariant
                i <= data@.len(),
                queue@ == old(self).pending() + data@.subrange(0, i as int),
            decreases data.len() - i,
        {
            queue.push_back(data[i]);
            i = i + 1;
            assert(data@.subrange(0, i as int) =~= data@.subrange(0, i - 1).push(data@[i - 1]));
            assert(queue@ =~= old(self).pending() + data@.subrange(0, i as int));
        }
        assert(data@.subrange(0, i as int) =~= data@);
        let mut chunks: Vec<Vec<T>> = Vec::new();
        assert(chunk_views(chunks@) + full_chunks(queue@, size as int) =~= full_chunks(
            all,
            size as int,
        ));
        while queue.len() >= size
            invariant
                size > 0,
                chunk_views(chunks@) + full_chunks(queue@, size as int) == full_chunks(
                    all,
                    size as int,
                ),
                after_chunks(queue@, size as int) == after_chunks(all, size as int),
            decreases queue@.len(),
        {
            let ghost before = queue@;
            let ghost done = chunk_views(chunks@);
            let rest = queue.split_off(size);
            let mut chunk: Vec<T> = Vec::new();
            let mut j: usize = 0;
            while j < size
                invariant
                    j <= size == queue@.len(),
                    chunk@ == queue@.subrange(0, j as int),
                decreases size - j,
            {
                chunk.push(queue[j]);
                j = j + 1;
                assert(chunk@ =~= queue@.subrange(0, j as int));
            }
            assert(chunk@ =~= before.subrange(0, size as int));
            chunks.push(chunk);
            queue = rest;
            assert(chunk_views(chunks@) =~= done.push(before.subrange(0, size as int)));
            assert(chunk_views(chunks@) + full_chunks(queue@, size as int) =~= done + full_chunks(
                before,
                size as int,
            ));
        }
        assert(chunk_views(chunks@) + full_chunks(queue@, size as int) =~= chunk_views(chunks@));
        self.pending = queue;
        chunks
    }
}

/// Samples that wait to be played.
pub struct PlaybackQueue<T> {
    queue: VecDeque<T>,
}

impl<T> View for PlaybackQueue<T> {
    type V = Seq<T>;

    closed spec fn view(&self) -> Seq<T> {
        self.queue@
    }
}

/// How many mono samples a buffer with interleaved channels takes.
pub open spec fn frames_needed(len: int, channels: int) -> int {
    if channels > 1 {
        len / channels
    } else {
        len
    }
}

/// A buffer that is filled from a queue: each sample goes to all channels of
/// its frame, and silence follows.
pub open spec fn filled<T>(queue: Seq<T>, len: nat, channels: int, silence: T) -> Seq<T> {
    let ch = if channels > 1 {
        channels
    } else {
        1
    };
    let available = taken(queue, len, channels);
    Seq::new(
        len,
        |j: int|
            if j / ch < available {
                queue[j / ch]
            } else {
                silence
            },
    )
}

/// How many samples a buffer takes from a queue.
pub open spec fn taken<T>(queue: Seq<T>, len: nat, channels: int) -> int {
    if queue.len() <= frames_needed(len as int, channels) {
        queue.len() as int
    } else {
        frames_needed(len as int, channels)
    }
}

impl<T: Copy> PlaybackQueue<T> {
    /// Nothing waits.
    pub fn new() -> (q: Self)
        ensures
            q@ == Seq::<T>::empty(),
    {
        PlaybackQueue { queue: VecDeque::new() }
    }

    /// Adds samples at the end.
    pub fn extend(&mut self, data: &[T])
        ensures
            final(self)@ == old(self)@ + data@,
    {
        let mut i: usize = 0;
        assert(self@ =~= old(self)@ + data@.subrange(0, 0));
        while i < data.len()
            invariant
                i <= data@.len(),
                self@ == old(self)@ + data@.subrange(0, i as int),
            decreases data.len() - i,
        {
            self.queue.push_back(data[i]);
            i = i + 1;
            assert(data@.subrange(0, i as int) =~= data@.subrange(0, i - 1).push(data@[i - 1]));
            assert(self@ =~= old(self)@ + data@.subrange(0, i as int));
        }
        assert(data@.subrange(0, i as int) =~= data@);
    }

    /// Drops the oldest samples until at most `cap` wait.
    pub fn limit(&mut self, cap: u64)
        ensures
            final(self)@ == if old(self)@.len() > cap {
                old(self)@.subrange(old(self)@.len() - cap, old(self)@.len() as int)
            } else {
                old(self)@
            },
    {
        if self.queue.len() as u64 > cap {
            let excess: usize = self.queue.len() - cap as usize;
            let kept = self.queue.split_off(excess);
            self.queue = kept;
        }
    }

    /// Takes the samples for a buffer of `len` interleaved ones.
    pub fn fill(&mut self, len: usize, channels: u16, silence: T) -> (data: Vec<T>)
        ensures
            data@ == filled(old(self)@, len as nat, channels as int, silence),
            final(self)@ == old(self)@.subrange(
                taken(old(self)@, len as nat, channels as int),
                old(self)@.len() as int,
            ),
    {
        let ch: usize = if channels > 1 {
            channels as usize
        } else {
            1
        };
        let needed: usize = len / ch;
        assert(needed <= len) by (nonlinear_arith)
            requires
                needed == len / ch,
                ch >= 1,
        ;
        let available: usize = if self.queue.len() <= needed {
            self.queue.len()
        } else {
            needed
        };
        let rest = self.queue.split_off(available);
        let ghost front = old(self)@.subrange(0, available as int);
        let mut data: Vec<T> = Vec::new();
        let mut j: usize = 0;
        while j < len
            invariant
                j <= len,
                ch >= 1,
                available <= old(self)@.len(),
                self.queue@ == old(self)@.subrange(0, available as int),
                data@.len() == j,
                forall|i: int|
                    0 <= i < j ==> #[trigger] data@[i] == if i / (ch as int) < available {
                        old(self)@[i / (ch as int)]
                    } else {
                        silence
                    },
            decreases len - j,
        {
            let frame: usize = j / ch;
            let sample = if frame < available {
                self.queue[frame]
            } else {
                silence
            };
            data.push(sample);
            j = j + 1;
        }
        self.queue = rest;
        assert(data@ =~= filled(old(self)@, len as nat, channels as int, silence));
        data
    }
}

/// What is played is what was queued, in order: a mono buffer and what is left
/// are what waited, as far as the buffer has room.
pub proof fn law_playback_keeps_order<T>(queue: Seq<T>, len: nat, silence: T)
    ensures
        ({
            let n = taken(queue, len, 1);
            filled(queue, len, 1, silence).subrange(0, n) + queue.subrange(n, queue.len() as int)
                == queue
        }),
{
    let n = taken(queue, len, 1);
    assert(filled(queue, len, 1, silence).subrange(0, n) =~= queue.subrange(0, n));
    assert(queue.subrange(0, n) + queue.subrange(n, queue.len() as int) =~= queue);
}

/// Chooses the device to open where a name that is gone must not keep voice
/// from starting: the one with the wanted name, else the default one.
pub fn choose_or_default(
    kind: &str,
    wanted: Option<&str>,
    names: &Vec<Option<String>>,
    default_exists: bool,
) -> (r: Result<DeviceChoice, String>)
    ensures
        ({
            let place = match wanted {
                Some(name) => place_of(opt_texts(names@), name@),
                None => None,
            };
            match place {
                Some(i) => r matches Ok(DeviceChoice::Place(p)) && p == i,
                None => if default_exists {
                    r matches Ok(DeviceChoice::Standard)
                } else {
                    r matches Err(e) && e@ == "no "@ + kind@ + " device available"@
                },
            }
        }),
{
    if let Some(name) = wanted {
        if let Ok(choice) = choose_device(kind, Some(name), names, default_exists) {
            return Ok(choice);
        }
    }
    if default_exists {
        Ok(DeviceChoice::Standard)
    } else {
        Err(join3("no ", kind, " device available"))
    }
}

/// Ends a tone after its time, even if the device is never closed.
pub struct ToneGate {
    frames_left: u64,
}

impl View for ToneGate {
    type V = u64;

    /// How many frames still sound.
    closed spec fn view(&self) -> u64 {
        self.frames_left
    }
}

impl ToneGate {
    /// A tone of a length in milliseconds at a sample rate.
    pub fn new(sample_rate: u32, duration_ms: u32) -> (g: Self)
        ensures
            g@ == (sample_rate * duration_ms) / 1000,
    {
        assert(0 <= sample_rate * duration_ms <= u32::MAX * u32::MAX) by (nonlinear_arith)
            requires
                0 <= sample_rate <= u32::MAX,
                0 <= duration_ms <= u32::MAX,
        ;
        ToneGate { frames_left: sample_rate as u64 * duration_ms as u64 / 1000 }
    }

    /// Whether the next frame sounds.
    pub fn sounds(&mut self) -> (r: bool)
        ensures
            r == (old(self)@ > 0),
            final(self)@ == if old(self)@ > 0 {
                (old(self)@ - 1) as u64
            } else {
                0
            },
    {
        if self.frames_left == 0 {
            return false;
        }
        self.frames_left = self.frames_left - 1;
        true
    }
}

/// Every chunk has the same size.
pub proof fn law_chunks_are_full<T>(s: Seq<T>, n: int, i: int)
    requires
        n > 0,
        0 <= i < full_chunks(s, n).len(),
    ensures
        full_chunks(s, n)[i].len() == n,
        full_chunks(s, n)[i] == s.subrange(i * n, i * n + n),
        0 <= i * n <= s.len() - n,
    decreases s.len(),
{
    let rest = s.subrange(n, s.len() as int);
    if i > 0 {
        law_chunks_are_full(rest, n, i - 1);
        assert((i - 1) * n + n == i * n) by (nonlinear_arith);
        assert(rest.subrange((i - 1) * n, (i - 1) * n + n) =~= s.subrange(i * n, i * n + n));
    } else {
        assert(0 * n == 0) by (nonlinear_arith);
    }
}

/// Every sample is played on all channels at once, in its turn, and after the
/// last one there is silence.
pub proof fn law_all_channels_sound<T>(
    queue: Seq<T>,
    frames: nat,
    channels: int,
    silence: T,
    frame: int,
    channel: int,
)
    requires
        channels >= 1,
        0 <= frame < frames,
        0 <= channel < channels,
    ensures
        ({
            let len = (frames * channels) as nat;
            let at = frame * channels + channel;
            &&& 0 <= at < len
            &&& frame < queue.len() ==> filled(queue, len, channels, silence)[at] == queue[frame]
            &&& frame >= queue.len() ==> filled(queue, len, channels, silence)[at] == silence
            &&& queue.len() >= frames ==> taken(queue, len, channels) == frames
            &&& queue.len() < frames ==> taken(queue, len, channels) == queue.len()
        }),
{
    let at = frame * channels + channel;
    let total = frames as int * channels;
    assert(0 <= at < total) by (nonlinear_arith)
        requires
            at == frame * channels + channel,
            total == frames as int * channels,
            0 <= frame < frames,
            0 <= channel < channels,
            channels >= 1,
    ;
    assert(at / channels == frame) by (nonlinear_arith)
        requires
            at == frame * channels + channel,
            0 <= channel < channels,
    ;
    assert(total / channels == frames) by (nonlinear_arith)
        requires
            total == frames as int * channels,
            channels >= 1,
    ;
    assert(frames_needed(total, channels) == frames) by {
        if channels == 1 {
            assert(total == frames) by (nonlinear_arith)
                requires
                    total == frames as int * channels,
                    channels == 1,
            ;
        }
    }
    if channels == 1 {
        assert(at / 1 == at);
    }
}

/// The devices that are listed are exactly those that report a name, each under
/// its place among all of them, and marked if its name is that of the default
/// one.
pub proof fn law_named_devices_are_listed(
    names: Seq<Option<Seq<char>>>,
    default_name: Seq<char>,
    d: DeviceInfoView,
)
    requires
        names.len() <= usize::MAX,
    ensures
        named_devices(names, default_name).contains(d) <==> {
            &&& d.index < names.len()
            &&& names[d.index as int] == Some(d.name)
            &&& d.is_default <==> d.name == default_name
        },
    decreases names.len(),
{
    if names.len() > 0 {
        let rest = names.drop_last();
        law_named_devices_are_listed(rest, default_name, d);
        if d.index < rest.len() {
            assert(rest[d.index as int] == names[d.index as int]);
        }
        if let Some(name) = names.last() {
            let last = DeviceInfoView {
                index: (names.len() - 1) as usize,
                name,
                is_default: name == default_name,
            };
            crate::table::lemma_push_contains(named_devices(rest, default_name), last);
            assert(named_devices(rest, default_name).push(last).contains(d) <==> named_devices(
                rest,
                default_name,
            ).contains(d) || d == last);
        }
    }
}

/// A name stands for the first device that reports it, and for none if no
/// device does.
pub proof fn law_first_of_a_name(names: Seq<Option<Seq<char>>>, name: Seq<char>)
    ensures
        match place_of(names, name) {
            Some(i) => 0 <= i < names.len() && names[i] == Some(name) && forall|j: int|
                0 <= j < i ==> #[trigger] names[j] != Some(name),
            None => forall|j: int| 0 <= j < names.len() ==> #[trigger] names[j] != Some(name),
        },
    decreases names.len(),
{
    if names.len() > 0 {
        let rest = names.drop_last();
        law_first_of_a_name(rest, name);
        match place_of(rest, name) {
            Some(i) => {
                assert(rest[i] == names[i]);
                assert forall|j: int| 0 <= j < i implies #[trigger] names[j] != Some(name) by {
                    assert(rest[j] == names[j]);
                }
            },
            None => {
                assert forall|j: int| 0 <= j < rest.len() implies #[trigger] names[j] != Some(
                    name,
                ) by {
                    assert(rest[j] == names[j]);
                }
            },
        }
    }
}

/// An index stands for the first device that has it, and for none if no device
/// does.
pub proof fn law_first_of_an_index(devices: Seq<DeviceInfoView>, index: usize)
    ensures
        match at_index(devices, index) {
            Some(name) => exists|i: int|
                0 <= i < devices.len() && (#[trigger] devices[i]).index == index && devices[i].name
                    == name && forall|j: int|
                    0 <= j < i ==> (#[trigger] devices[j]).index != index,
            None => forall|i: int|
                0 <= i < devices.len() ==> (#[trigger] devices[i]).index != index,
        },
    decreases devices.len(),
{
    if devices.len() > 0 && devices[0].index != index {
        let rest = devices.drop_first();
        law_first_of_an_index(rest, index);
        match at_index(rest, index) {
            Some(name) => {
                let i = choose|i: int|
                    0 <= i < rest.len() && (#[trigger] rest[i]).index == index && rest[i].name
                        == name && forall|j: int|
                        0 <= j < i ==> (#[trigger] rest[j]).index != index;
                assert(devices[i + 1] == rest[i]);
                assert forall|j: int| 0 <= j < i + 1 implies (#[trigger] devices[j]).index
                    != index by {
                    if j > 0 {
                        assert(devices[j] == rest[j - 1]);
                    }
                }
            },
            None => {
                assert forall|i: int| 0 <= i < devices.len() implies (#[trigger] devices[i]).index
                    != index by {
                    if i > 0 {
                        assert(devices[i] == rest[i - 1]);
                    }
                }
            },
        }
    } else if devices.len() > 0 {
        assert(devices[0].index == index);
    }
}

} // verus!
