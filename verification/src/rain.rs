//! The digital rain that the terminal client can show.

use vstd::prelude::*;

use crate::random::{random_index, random_u64};
use crate::text::chars_of;

verus! {

/// The characters that fall.
pub const MATRIX_CHARSET: &'static str = "ABCDEFGHJKMNPQRSTUVWXYZ0123456789@#$&*=<>~{}[]|:;";

/// A stream of falling characters. Rows are counted in thousandths.
#[derive(Debug, Clone, Copy, PartialEq, Eq, Structural)]
pub struct MatrixStream {
    pub x: u16,
    pub head: i64,
    pub speed: i64,
    pub length: u16,
    pub seed: u64,
}

/// The rain.
pub struct MatrixState {
    streams: Vec<MatrixStream>,
    tick: u64,
}

/// The row that a place in thousandths is on, rounded towards row 0.
pub open spec fn row_of(thousandths: int) -> int {
    if thousandths >= 0 {
        thousandths / 1000
    } else {
        -((-thousandths) / 1000)
    }
}

/// Whether any part of a stream is yet to leave the screen.
pub open spec fn on_screen(s: MatrixStream, height: u16) -> bool {
    row_of(s.head as int) - s.length < height
}

/// A stream after one step.
pub open spec fn fallen(s: MatrixStream) -> MatrixStream {
    MatrixStream { head: (s.head + s.speed) as i64, ..s }
}

/// The streams after one step, without those that left the screen.
pub open spec fn advanced(streams: Seq<MatrixStream>, height: u16) -> Seq<MatrixStream>
    decreases streams.len(),
{
    if streams.len() == 0 {
        Seq::empty()
    } else {
        let rest = advanced(streams.drop_last(), height);
        let s = fallen(streams.last());
        if on_screen(s, height) {
            rest.push(s)
        } else {
            rest
        }
    }
}

/// The number of streams to show: eight, and three for two kilobytes per
/// second, but no more than four fifths of the width.
pub open spec fn target_streams(width: u16, rate: u64) -> int {
    let wanted = 8 + rate * 3 / 2048;
    let limit = width * 4 / 5;
    if wanted <= limit {
        wanted
    } else {
        limit
    }
}

/// A stream that may start on a screen of the given size.
pub open spec fn is_fresh(s: MatrixStream, width: u16, height: u16) -> bool {
    &&& s.x < width
    &&& -1000 * (height - 1) <= s.head <= 0
    &&& s.head % 1000 == 0
    &&& 300 <= s.speed < 1300
    &&& 4 <= s.length
    &&& s.length < if height > 5 {
        height
    } else {
        5
    }
}

/// A stream that could have started some steps ago.
pub open spec fn is_bounded(s: MatrixStream) -> bool {
    &&& -1000 * u16::MAX <= s.head < 1000 * (2 * u16::MAX + 2)
    &&& 300 <= s.speed < 1300
}

/// The row that a place in thousandths is on.
fn row(thousandths: i64) -> (r: i64)
    requires
        -1_000_000_000 <= thousandths <= 1_000_000_000,
    ensures
        r == row_of(thousandths as int),
        -1_000_000_000 <= r <= 1_000_000_000,
{
    if thousandths >= 0 {
        (thousandths as u64 / 1000) as i64
    } else {
        -(((-thousandths) as u64 / 1000) as i64)
    }
}

impl MatrixState {
    /// The streams.
    pub closed spec fn streams(&self) -> Seq<MatrixStream> {
        self.streams@
    }

    /// The number of steps so far.
    pub closed spec fn ticks(&self) -> u64 {
        self.tick
    }

    #[verifier::type_invariant]
    spec fn inv(self) -> bool {
        forall|i: int| 0 <= i < self.streams@.len() ==> is_bounded(#[trigger] self.streams@[i])
    }

    /// No rain yet.
    pub fn new() -> (m: Self)
        ensures
            m.streams() == Seq::<MatrixStream>::empty(),
            m.ticks() == 0,
    {
        MatrixState { streams: Vec::new(), tick: 0 }
    }

    /// The streams.
    pub fn stream_list(&self) -> (v: &Vec<MatrixStream>)
        ensures
            v@ == self.streams(),
    {
        &self.streams
    }

    /// One step on a screen of the given size, at a traffic of `rate` bytes
    /// per second: the streams fall, those that left the screen go, and new
    /// ones start until there are enough.
    pub fn tick(&mut self, width: u16, height: u16, rate: u64)
        requires
            old(self).ticks() < u64::MAX,
        ensures
            width == 0 || height == 0 ==> final(self).streams() == old(self).streams()
                && final(self).ticks() == old(self).ticks(),
            width > 0 && height > 0 ==> {
                let kept = advanced(old(self).streams(), height);
                let all = final(self).streams();
                &&& final(self).ticks() == old(self).ticks() + 1
                &&& all.len() == if kept.len() < target_streams(width, rate) {
                    target_streams(width, rate)
                } else {
                    kept.len() as int
                }
                &&& all.subrange(0, kept.len() as int) == kept
                &&& forall|i: int|
                    kept.len() <= i < all.len() ==> is_fresh(#[trigger] all[i], width, height)
            },
    {
        if width == 0 || height == 0 {
            return;
        }
        proof {
            use_type_invariant(&*self);
        }
        let mut streams: Vec<MatrixStream> = Vec::new();
        std::mem::swap(&mut streams, &mut self.streams);
        let ghost before = streams@;
        let mut next: Vec<MatrixStream> = Vec::new();
        let mut i: usize = 0;
        assert(before.subrange(0, 0) =~= Seq::empty());
        while i < streams.len()
            invariant
                i <= streams@.len(),
                streams@ == before,
                forall|j: int| 0 <= j < before.len() ==> is_bounded(#[trigger] before[j]),
                next@ == advanced(before.subrange(0, i as int), height),
                forall|j: int| 0 <= j < next@.len() ==> is_bounded(#[trigger] next@[j]),
            decreases streams.len() - i,
        {
            let mut s = streams[i];
            assert(is_bounded(before[i as int]));
            s.head = s.head + s.speed;
            let gone = row(s.head) - s.length as i64 >= height as i64;
            i = i + 1;
            proof {
                let t = before.subrange(0, i as int);
                assert(t.drop_last() =~= before.subrange(0, i - 1));
                assert(t.last() == before[i - 1]);
                assert(s == fallen(before[i - 1]));
            }
            if !gone {
                assert(is_bounded(s));
                next.push(s);
            }
        }
        assert(before.subrange(0, i as int) =~= before);
        let ghost kept = next@;
        let wanted: u128 = 8 + rate as u128 * 3 / 2048;
        let limit: u64 = width as u64 * 4 / 5;
        let target: u64 = if wanted <= limit as u128 {
            wanted as u64
        } else {
            limit
        };
        let longest: u16 = if height > 5 {
            height
        } else {
            5
        };
        while (next.len() as u64) < target
            invariant
                width > 0,
                height > 0,
                longest >= 5,
                longest == if height > 5 {
                    height
                } else {
                    5
                },
                target == target_streams(width, rate),
                kept.len() <= next@.len(),
                next@.len() == kept.len() || next@.len() <= target,
                next@.subrange(0, kept.len() as int) == kept,
                forall|j: int|
                    kept.len() <= j < next@.len() ==> is_fresh(#[trigger] next@[j], width, height),
                forall|j: int| 0 <= j < next@.len() ==> is_bounded(#[trigger] next@[j]),
            decreases target - next@.len(),
        {
            let x: usize = random_index(width as usize);
            let y: usize = random_index(height as usize);
            let speed: usize = random_index(1000);
            let length: usize = random_index(longest as usize - 4);
            let s = MatrixStream {
                x: x as u16,
                head: -(y as i64 * 1000),
                speed: speed as i64 + 300,
                length: (length + 4) as u16,
                seed: random_u64(),
            };
            let ghost all = next@;
            next.push(s);
            assert(next@.subrange(0, kept.len() as int) =~= all.subrange(0, kept.len() as int));
        }
        self.streams = next;
        self.tick = self.tick + 1;
    }

    /// The character of a stream on a row. It changes every four steps.
    pub fn char_at(&self, seed: u64, y: i32) -> (c: char)
        ensures
            c == char_of(self.ticks(), seed, y as u64),
    {
        let phase: u64 = self.tick / 4;
        let hash: u64 = seed.wrapping_mul(2654435761).wrapping_add(y as u64).wrapping_mul(
            2246822519,
        ).wrapping_add(phase.wrapping_mul(6364136223846793005));
        let charset = chars_of(MATRIX_CHARSET);
        proof {
            reveal_strlit("ABCDEFGHJKMNPQRSTUVWXYZ0123456789@#$&*=<>~{}[]|:;");
        }
        charset[(hash % charset.len() as u64) as usize]
    }
}

/// How brightly a character glows.
#[derive(Debug, Clone, Copy, PartialEq, Eq, Structural)]
pub enum Shade {
    /// The head of a stream.
    White,
    /// Right behind the head.
    Bright,
    /// Further back, in a green of the given strength.
    Green(u8),
}

/// A character on the screen.
#[derive(Debug, Clone, Copy, PartialEq, Eq, Structural)]
pub struct Cell {
    pub x: u16,
    pub y: u16,
    pub ch: char,
    pub shade: Shade,
}

/// The glow of the character `i` places behind the head of a stream. It fades
/// by 85 percent over the length of the stream, but not below 40.
pub open spec fn shade_of(i: int, length: u16) -> Shade {
    if i == 0 {
        Shade::White
    } else if i <= 2 {
        Shade::Bright
    } else {
        let g = (25_500 * length - 21_675 * i) / (100 * length);
        Shade::Green(
            if g > 40 {
                g as u8
            } else {
                40
            },
        )
    }
}

/// Whether the character `i` places behind the head of a stream shows on a
/// screen with the given rows and width.
pub open spec fn shows(s: MatrixStream, i: int, top: u16, bottom: u16, width: u16) -> bool {
    top <= row_of(s.head as int) - i < bottom && s.x < width
}

/// The first `n` characters of a stream that show, from the head on.
pub open spec fn stream_cells(
    s: MatrixStream,
    tick: u64,
    top: u16,
    bottom: u16,
    width: u16,
    n: nat,
) -> Seq<Cell>
    decreases n,
{
    if n == 0 {
        Seq::empty()
    } else {
        let rest = stream_cells(s, tick, top, bottom, width, (n - 1) as nat);
        if shows(s, n - 1, top, bottom, width) {
            let y = row_of(s.head as int) - (n - 1);
            rest.push(
                Cell {
                    x: s.x,
                    y: y as u16,
                    ch: char_of(tick, s.seed, y as u64),
                    shade: shade_of(n - 1, s.length),
                },
            )
        } else {
            rest
        }
    }
}

/// The characters of all streams that show, in the order in which they are
/// drawn: a later one covers an earlier one.
pub open spec fn all_cells(
    streams: Seq<MatrixStream>,
    tick: u64,
    top: u16,
    bottom: u16,
    width: u16,
) -> Seq<Cell>
    decreases streams.len(),
{
    if streams.len() == 0 {
        Seq::empty()
    } else {
        let s = streams.last();
        all_cells(streams.drop_last(), tick, top, bottom, width) + stream_cells(
            s,
            tick,
            top,
            bottom,
            width,
            s.length as nat,
        )
    }
}

/// The glow of the character `i` places behind the head of a stream.
fn shade(i: u16, length: u16) -> (r: Shade)
    requires
        i < length,
    ensures
        r == shade_of(i as int, length),
{
    if i == 0 {
        Shade::White
    } else if i <= 2 {
        Shade::Bright
    } else {
        let top: u64 = 25_500 * length as u64 - 21_675 * i as u64;
        let whole: u64 = 100 * length as u64;
        let g: u64 = top / whole;
        assert(g <= 255) by (nonlinear_arith)
            requires
                g == top / whole,
                top <= 255 * whole,
                whole > 0,
        ;
        Shade::Green(
            if g > 40 {
                g as u8
            } else {
                40
            },
        )
    }
}

impl MatrixState {
    /// What to draw on the rows from `top` to below `bottom` of a screen.
    pub fn cells(&self, top: u16, bottom: u16, width: u16) -> (v: Vec<Cell>)
        ensures
            v@ == all_cells(self.streams(), self.ticks(), top, bottom, width),
    {
        proof {
            use_type_invariant(self);
        }
        let mut v: Vec<Cell> = Vec::new();
        let mut i: usize = 0;
        assert(self.streams@.subrange(0, 0) =~= Seq::empty());
        while i < self.streams.len()
            invariant
                i <= self.streams@.len(),
                forall|j: int|
                    0 <= j < self.streams@.len() ==> is_bounded(#[trigger] self.streams@[j]),
                v@ == all_cells(
                    self.streams@.subrange(0, i as int),
                    self.tick,
                    top,
                    bottom,
                    width,
                ),
            decreases self.streams.len() - i,
        {
            let s = self.streams[i];
            assert(is_bounded(self.streams@[i as int]));
            let head: i64 = row(s.head);
            let ghost before = v@;
            let mut k: u16 = 0;
            while k < s.length
                invariant
                    k <= s.length,
                    head == row_of(s.head as int),
                    -1_000_000_000 <= head <= 1_000_000_000,
                    v@ == before + stream_cells(s, self.tick, top, bottom, width, k as nat),
                decreases s.length - k,
            {
                let y: i64 = head - k as i64;
                if top as i64 <= y && y < bottom as i64 && s.x < width {
                    let cell = Cell {
                        x: s.x,
                        y: y as u16,
                        ch: self.char_at(s.seed, y as i32),
                        shade: shade(k, s.length),
                    };
                    assert(y as i32 as u64 == y as u64);
                    v.push(cell);
                }
                k = k + 1;
                assert(v@ =~= before + stream_cells(s, self.tick, top, bottom, width, k as nat));
            }
            i = i + 1;
            proof {
                let t = self.streams@.subrange(0, i as int);
                assert(t.drop_last() =~= self.streams@.subrange(0, i - 1));
            }
        }
        assert(self.streams@.subrange(0, i as int) =~= self.streams@);
        v
    }
}

/// The number that picks the character of a stream on a row.
pub open spec fn char_hash(tick: u64, seed: u64, y: u64) -> u64 {
    u64::wrapping_add(
        u64::wrapping_mul(
            u64::wrapping_add(u64::wrapping_mul(seed, 2654435761), y),
            2246822519,
        ),
        u64::wrapping_mul((tick / 4) as u64, 6364136223846793005),
    )
}

/// The character of a stream on a row.
pub open spec fn char_of(tick: u64, seed: u64, y: u64) -> char {
    MATRIX_CHARSET@[char_hash(tick, seed, y) as int % MATRIX_CHARSET@.len() as int]
}

/// The characters stand still for four steps at a time.
pub proof fn law_characters_linger(tick: u64, seed: u64, y: u64, step: u64)
    requires
        step < 4,
        tick % 4 == 0,
        tick + step <= u64::MAX,
    ensures
        char_of((tick + step) as u64, seed, y) == char_of(tick, seed, y),
{
    assert((tick + step) as u64 / 4 == tick / 4);
}

/// Whatever is drawn lies within the screen.
pub proof fn law_rain_stays_on_screen(
    streams: Seq<MatrixStream>,
    tick: u64,
    top: u16,
    bottom: u16,
    width: u16,
    i: int,
)
    requires
        0 <= i < all_cells(streams, tick, top, bottom, width).len(),
    ensures
        ({
            let c = all_cells(streams, tick, top, bottom, width)[i];
            top <= c.y < bottom && c.x < width
        }),
    decreases streams.len(),
{
    let s = streams.last();
    let before = all_cells(streams.drop_last(), tick, top, bottom, width);
    if i < before.len() {
        law_rain_stays_on_screen(streams.drop_last(), tick, top, bottom, width, i);
    } else {
        lemma_stream_on_screen(s, tick, top, bottom, width, s.length as nat, i - before.len());
    }
}

/// Whatever is drawn of one stream lies within the screen.
proof fn lemma_stream_on_screen(
    s: MatrixStream,
    tick: u64,
    top: u16,
    bottom: u16,
    width: u16,
    n: nat,
    i: int,
)
    requires
        0 <= i < stream_cells(s, tick, top, bottom, width, n).len(),
    ensures
        ({
            let c = stream_cells(s, tick, top, bottom, width, n)[i];
            top <= c.y < bottom && c.x < width
        }),
    decreases n,
{
    let rest = stream_cells(s, tick, top, bottom, width, (n - 1) as nat);
    if i < rest.len() {
        lemma_stream_on_screen(s, tick, top, bottom, width, (n - 1) as nat, i);
    }
}

/// The more traffic, the more streams, from eight on, but never more than the
/// screen has room for.
pub proof fn law_rain_thickens(width: u16, slow: u64, fast: u64)
    requires
        slow <= fast,
    ensures
        target_streams(width, slow) <= target_streams(width, fast),
        5 * target_streams(width, fast) <= 4 * width,
        width >= 10 ==> target_streams(width, slow) >= 8,
        target_streams(width, 0) <= 8,
{
}

/// Streams fall by their speed and leave when no part of them is on the screen;
/// they keep their order.
pub proof fn law_streams_fall(streams: Seq<MatrixStream>, height: u16)
    ensures
        advanced(streams, height) == streams.map_values(|s: MatrixStream| fallen(s)).filter(
            |s: MatrixStream| on_screen(s, height),
        ),
    decreases streams.len(),
{
    reveal(Seq::filter);
    if streams.len() > 0 {
        law_streams_fall(streams.drop_last(), height);
        let all = streams.map_values(|s: MatrixStream| fallen(s));
        assert(all.drop_last() =~= streams.drop_last().map_values(|s: MatrixStream| fallen(s)));
        assert(all.last() == fallen(streams.last()));
    }
}

/// Every part of a stream that is on the screen is drawn, on its row.
pub proof fn law_visible_is_drawn(
    s: MatrixStream,
    tick: u64,
    top: u16,
    bottom: u16,
    width: u16,
    n: nat,
    i: int,
)
    requires
        0 <= i < n,
        shows(s, i, top, bottom, width),
    ensures
        exists|k: int|
            0 <= k < stream_cells(s, tick, top, bottom, width, n).len() && (
            #[trigger] stream_cells(s, tick, top, bottom, width, n)[k]).y == row_of(s.head as int)
                - i && stream_cells(s, tick, top, bottom, width, n)[k].x == s.x,
    decreases n,
{
    let rest = stream_cells(s, tick, top, bottom, width, (n - 1) as nat);
    let all = stream_cells(s, tick, top, bottom, width, n);
    if i < n - 1 {
        law_visible_is_drawn(s, tick, top, bottom, width, (n - 1) as nat, i);
        let k = choose|k: int|
            0 <= k < rest.len() && (#[trigger] rest[k]).y == row_of(s.head as int) - i && rest[k].x
                == s.x;
        assert(all[k] == rest[k]);
    } else {
        assert(all[rest.len() as int].x == s.x);
    }
}

/// A stream is brightest at its head and fades towards its end.
pub proof fn law_stream_fades(i: int, j: int, length: u16)
    requires
        3 <= i <= j < length,
    ensures
        shade_of(0, length) == Shade::White,
        shade_of(1, length) == Shade::Bright,
        shade_of(2, length) == Shade::Bright,
        shade_of(i, length) matches Shade::Green(a) && (shade_of(j, length) matches Shade::Green(b)
            && b <= a && b >= 40),
{
    let l = length as int;
    let a = (25_500 * l - 21_675 * i) / (100 * l);
    let b = (25_500 * l - 21_675 * j) / (100 * l);
    assert(b <= a <= 255) by (nonlinear_arith)
        requires
            a == (25_500 * l - 21_675 * i) / (100 * l),
            b == (25_500 * l - 21_675 * j) / (100 * l),
            0 <= i <= j < l,
    ;
}

} // verus!
