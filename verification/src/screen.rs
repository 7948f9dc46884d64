//! What the terminal client shows around its log.

use vstd::prelude::*;

use crate::commands::join_names;
use crate::messages;
use crate::terminal;
use crate::terminal::{command_name, command_purpose, App, ConnectionState};
use crate::text;
use crate::text::{chars_of, decimal_string, join2, join3, join5, owned, str_eq};

verus! {

/// A quotient rounded to the nearest whole number; halves go to the even one.
pub open spec fn rounded(n: int, d: int) -> int {
    let q = n / d;
    let r = n % d;
    if 2 * r < d || (2 * r == d && q % 2 == 0) {
        q
    } else {
        q + 1
    }
}

/// A number of bytes in a unit, with one decimal.
pub open spec fn tenths_text(bytes: nat, unit: nat) -> Seq<char> {
    let t = rounded(bytes as int * 10, unit as int);
    text::decimal((t / 10) as nat) + "."@ + text::decimal((t % 10) as nat)
}

/// A number of bytes in the largest unit that makes it at least one.
pub open spec fn bytes_text(bytes: nat) -> Seq<char> {
    if bytes >= 1_073_741_824 {
        tenths_text(bytes, 1_073_741_824) + " GB"@
    } else if bytes >= 1_048_576 {
        tenths_text(bytes, 1_048_576) + " MB"@
    } else if bytes >= 1_024 {
        text::decimal(rounded(bytes as int, 1_024) as nat) + " KB"@
    } else {
        text::decimal(bytes) + " B"@
    }
}

/// A quotient rounded to the nearest whole number.
fn round_div(n: u128, d: u64) -> (q: u64)
    requires
        d > 0,
        n <= u64::MAX * 10,
        d >= 1_024,
    ensures
        q == rounded(n as int, d as int),
{
    let d: u128 = d as u128;
    let q: u128 = n / d;
    let r: u128 = n % d;
    assert(q <= u64::MAX * 10 / 1_024) by (nonlinear_arith)
        requires
            q == n / d,
            n <= u64::MAX * 10,
            d >= 1_024,
    ;
    if 2 * r < d || (2 * r == d && q % 2 == 0) {
        q as u64
    } else {
        (q + 1) as u64
    }
}

/// A number of bytes in a unit, with one decimal.
fn tenths(bytes: u64, unit: u64) -> (s: String)
    requires
        unit >= 1_024,
    ensures
        s@ == tenths_text(bytes as nat, unit as nat),
{
    let t: u64 = round_div(bytes as u128 * 10, unit);
    let whole = decimal_string(t / 10);
    let part = decimal_string(t % 10);
    join3(whole.as_str(), ".", part.as_str())
}

/// A number of bytes for people to read.
pub fn format_bytes(bytes: u64) -> (s: String)
    ensures
        s@ == bytes_text(bytes as nat),
{
    if bytes >= 1_073_741_824 {
        let n = tenths(bytes, 1_073_741_824);
        join2(n.as_str(), " GB")
    } else if bytes >= 1_048_576 {
        let n = tenths(bytes, 1_048_576);
        join2(n.as_str(), " MB")
    } else if bytes >= 1_024 {
        let n = decimal_string(round_div(bytes as u128, 1_024));
        join2(n.as_str(), " KB")
    } else {
        let n = decimal_string(bytes);
        join2(n.as_str(), " B")
    }
}

/// How a part of the status bar is drawn.
#[derive(Debug, Clone, Copy, PartialEq, Eq, Structural)]
pub enum Tone {
    Plain,
    /// The name of the program.
    Brand,
    /// No connection.
    Alarm,
    /// A connection is being made, or the quality is fair.
    Caution,
    /// All is well.
    Good,
    /// Connected, but in no channel.
    Idle,
    /// Muted, or bad quality.
    Bad,
    /// Of little interest.
    Faint,
    /// Who speaks.
    Speaking,
    /// How many are there.
    Crowd,
}

/// A part of the status bar.
#[derive(Debug)]
pub struct Segment {
    pub text: String,
    pub tone: Tone,
}

/// What a list of segments says.
pub open spec fn segments(v: Seq<Segment>) -> Seq<(Seq<char>, Tone)> {
    v.map_values(|s: Segment| (s.text@, s.tone))
}

/// The connection or the channel.
pub open spec fn place_segment(a: terminal::AppView) -> (Seq<char>, Tone) {
    match a.conn_state {
        ConnectionState::Disconnected => (" DISCONNECTED "@, Tone::Alarm),
        ConnectionState::Reconnecting { attempt } => (
            " RECONNECTING ("@ + text::decimal(attempt as nat) + ") "@,
            Tone::Caution,
        ),
        ConnectionState::Connected => match a.channel {
            Some(c) => (" #"@ + c + " "@, Tone::Good),
            None => (" online "@, Tone::Idle),
        },
    }
}

/// Whether voice runs.
pub open spec fn voice_segment(a: terminal::AppView) -> (Seq<char>, Tone) {
    if !a.voice_active {
        (""@, Tone::Plain)
    } else if a.muted {
        (" MUTED "@, Tone::Bad)
    } else {
        (" VOICE ON "@, Tone::Good)
    }
}

/// How good the voice is.
pub open spec fn quality_segment(a: terminal::AppView) -> (Seq<char>, Tone) {
    match a.voice_quality {
        Some((loss, tier)) => (
            " "@ + text::decimal(loss as nat) + "% loss ("@ + tier + ") "@,
            if tier == "high"@ {
                Tone::Good
            } else if tier == "medium"@ {
                Tone::Caution
            } else {
                Tone::Bad
            },
        ),
        None => (""@, Tone::Plain),
    }
}

/// How much is sent and received.
pub open spec fn traffic_segment(a: terminal::AppView) -> (Seq<char>, Tone) {
    match a.voice_traffic {
        Some((tx, rx, total)) => (
            " ↑"@ + tenths_text(tx as nat, 1_024) + " ↓"@ + tenths_text(rx as nat, 1_024)
                + " KB/s ("@ + bytes_text(total as nat) + ") "@,
            Tone::Faint,
        ),
        None => (""@, Tone::Plain),
    }
}

/// Who speaks.
pub open spec fn speakers_segment(a: terminal::AppView) -> (Seq<char>, Tone) {
    if a.active_speakers.len() > 0 {
        (" "@ + text::joined(a.active_speakers, ", "@) + " "@, Tone::Speaking)
    } else {
        (""@, Tone::Plain)
    }
}

/// How many are in the channel.
pub open spec fn crowd_segment(a: terminal::AppView) -> (Seq<char>, Tone) {
    if a.participants.len() > 0 {
        (" "@ + text::decimal(a.participants.len()) + " users "@, Tone::Crowd)
    } else {
        (""@, Tone::Plain)
    }
}

/// The status bar.
pub open spec fn status_bar(a: terminal::AppView) -> Seq<(Seq<char>, Tone)> {
    seq![
        (" tc "@, Tone::Brand),
        ("  "@, Tone::Plain),
        place_segment(a),
        ("  "@, Tone::Plain),
        voice_segment(a),
        ("  "@, Tone::Plain),
        quality_segment(a),
        traffic_segment(a),
        ("  "@, Tone::Plain),
        speakers_segment(a),
        ("  "@, Tone::Plain),
        crowd_segment(a),
    ]
}

/// A segment.
fn segment(text: String, tone: Tone) -> (s: Segment)
    ensures
        s.text@ == text@,
        s.tone == tone,
{
    Segment { text, tone }
}

/// The connection or the channel.
fn place_part(app: &App) -> (s: Segment)
    ensures
        (s.text@, s.tone) == place_segment(app@),
{
    match app.conn_state {
        ConnectionState::Disconnected => segment(owned(" DISCONNECTED "), Tone::Alarm),
        ConnectionState::Reconnecting { attempt } => {
            let digits = decimal_string(attempt as u64);
            segment(join3(" RECONNECTING (", digits.as_str(), ") "), Tone::Caution)
        },
        ConnectionState::Connected => match &app.channel {
            Some(c) => segment(join3(" #", c.as_str(), " "), Tone::Good),
            None => segment(owned(" online "), Tone::Idle),
        },
    }
}

/// How good the voice is.
fn quality_part(app: &App) -> (s: Segment)
    ensures
        (s.text@, s.tone) == quality_segment(app@),
{
    match &app.voice_quality {
        Some(q) => {
            let digits = decimal_string(q.0 as u64);
            let tier: &str = q.1.as_str();
            let tone = if str_eq(tier, "high") {
                Tone::Good
            } else if str_eq(tier, "medium") {
                Tone::Caution
            } else {
                Tone::Bad
            };
            segment(join5(" ", digits.as_str(), "% loss (", tier, ") "), tone)
        },
        None => segment(owned(""), Tone::Plain),
    }
}

/// How much is sent and received.
fn traffic_part(app: &App) -> (s: Segment)
    ensures
        (s.text@, s.tone) == traffic_segment(app@),
{
    match app.voice_traffic {
        Some((tx, rx, total)) => {
            let up = tenths(tx, 1_024);
            let down = tenths(rx, 1_024);
            let all = format_bytes(total);
            let mut line = join5(" ↑", up.as_str(), " ↓", down.as_str(), " KB/s (");
            line.append(all.as_str());
            line.append(") ");
            segment(line, Tone::Faint)
        },
        None => segment(owned(""), Tone::Plain),
    }
}

/// The status bar, from left to right.
pub fn status_segments(app: &App) -> (v: Vec<Segment>)
    ensures
        segments(v@) == status_bar(app@),
{
    let voice = if !app.voice_active {
        segment(owned(""), Tone::Plain)
    } else if app.muted {
        segment(owned(" MUTED "), Tone::Bad)
    } else {
        segment(owned(" VOICE ON "), Tone::Good)
    };
    let speakers = if app.active_speakers.len() > 0 {
        let list = join_names(&app.active_speakers);
        segment(join3(" ", list.as_str(), " "), Tone::Speaking)
    } else {
        segment(owned(""), Tone::Plain)
    };
    let crowd = if app.participants.len() > 0 {
        let digits = decimal_string(app.participants.len() as u64);
        segment(join3(" ", digits.as_str(), " users "), Tone::Crowd)
    } else {
        segment(owned(""), Tone::Plain)
    };
    let mut v: Vec<Segment> = Vec::new();
    v.push(segment(owned(" tc "), Tone::Brand));
    v.push(segment(owned("  "), Tone::Plain));
    v.push(place_part(app));
    v.push(segment(owned("  "), Tone::Plain));
    v.push(voice);
    v.push(segment(owned("  "), Tone::Plain));
    v.push(quality_part(app));
    v.push(traffic_part(app));
    v.push(segment(owned("  "), Tone::Plain));
    v.push(speakers);
    v.push(segment(owned("  "), Tone::Plain));
    v.push(crowd);
    assert(segments(v@) =~= status_bar(app@));
    v
}

/// A text with spaces behind it, up to a width.
pub open spec fn padded(s: Seq<char>, width: nat) -> Seq<char> {
    if s.len() < width {
        s + Seq::new((width - s.len()) as nat, |i: int| ' ')
    } else {
        s
    }
}

/// The line of a command in the list of completions.
pub open spec fn completion_text(i: int) -> Seq<char> {
    padded(terminal::command(i), 12) + " "@ + terminal::purpose(i)
}

/// The list of completions, each with whether it is the selected one.
pub open spec fn completions(app: terminal::AppView) -> Seq<(Seq<char>, bool)> {
    Seq::new(
        app.autocomplete.len(),
        |k: int| (completion_text(app.autocomplete[k] as int), k == app.autocomplete_sel),
    )
}

/// A text with spaces behind it, up to a width.
fn pad(s: &str, width: usize) -> (r: String)
    ensures
        r@ == padded(s@, width as nat),
{
    let n: usize = chars_of(s).len();
    let mut r = owned(s);
    let mut i: usize = n;
    while i < width
        invariant
            n == s@.len(),
            n <= i,
            i <= width || i == n,
            r@ == s@ + Seq::new((i - n) as nat, |k: int| ' '),
        decreases width - i,
    {
        r.push(' ');
        i = i + 1;
        assert(r@ =~= s@ + Seq::new((i - n) as nat, |k: int| ' '));
    }
    assert(r@ =~= padded(s@, width as nat));
    r
}

/// The lines of the list of completions, each with whether it is selected.
pub fn completion_lines(app: &App) -> (v: Vec<(String, bool)>)
    ensures
        v@.len() == completions(app@).len(),
        forall|k: int|
            0 <= k < v@.len() ==> ((#[trigger] v@[k]).0@, v@[k].1) == completions(app@)[k],
{
    let mut v: Vec<(String, bool)> = Vec::new();
    let mut k: usize = 0;
    while k < app.autocomplete.len()
        invariant
            k <= app.autocomplete@.len(),
            v@.len() == k,
            forall|j: int|
                0 <= j < v@.len() ==> ((#[trigger] v@[j]).0@, v@[j].1) == completions(app@)[j],
        decreases app.autocomplete.len() - k,
    {
        let i: usize = app.autocomplete[k];
        let name = pad(command_name(i), 12);
        let line = join3(name.as_str(), " ", command_purpose(i));
        v.push((line, k == app.autocomplete_sel));
        k = k + 1;
    }
    v
}

/// Where the list of completions goes: right above the input line, one column
/// in, at most seven lines high and forty columns wide.
pub open spec fn popup(x: int, y: int, screen_width: int, lines: int) -> (int, int, int, int) {
    let height = if lines % 65536 < 7 {
        lines % 65536
    } else {
        7
    };
    let room = if screen_width < 2 {
        0
    } else {
        screen_width - 2
    };
    let width = if room < 40 {
        room
    } else {
        40
    };
    let above = if y < height {
        0
    } else {
        y - height
    };
    (x + 1, above, width, height)
}

/// The place of the list of completions: column, row, width and height, for an
/// input line at column `x` and row `y`.
pub fn popup_area(x: u16, y: u16, screen_width: u16, lines: usize) -> (r: (u16, u16, u16, u16))
    requires
        x < u16::MAX,
    ensures
        (r.0 as int, r.1 as int, r.2 as int, r.3 as int) == popup(
            x as int,
            y as int,
            screen_width as int,
            lines as int,
        ),
{
    let n: u16 = (lines % 65536) as u16;
    let height: u16 = if n < 7 {
        n
    } else {
        7
    };
    let room: u16 = screen_width.saturating_sub(2);
    let width: u16 = if room < 40 {
        room
    } else {
        40
    };
    (x + 1, y.saturating_sub(height), width, height)
}

/// The note above the log that it is scrolled back, if it is.
pub fn scroll_note(app: &App) -> (r: Option<String>)
    ensures
        match r {
            Some(s) => app@.scroll_offset > 0 && s@ == " ↑ "@ + text::decimal(
                app@.scroll_offset as nat,
            ) + " more "@,
            None => app@.scroll_offset == 0,
        },
{
    if app.scroll_offset > 0 {
        let digits = decimal_string(app.scroll_offset as u64);
        Some(join3(" ↑ ", digits.as_str(), " more "))
    } else {
        None
    }
}

/// What a browser is shown of the client.
pub struct WebState {
    pub conn_state: String,
    pub channel: Option<String>,
    pub participants: Vec<String>,
    pub voice_active: bool,
    pub muted: bool,
    pub messages: Vec<String>,
    pub active_speakers: Vec<String>,
    pub voice_quality: Option<(u8, String)>,
    pub voice_traffic: Option<(u64, u64, u64)>,
    pub name: Option<String>,
}

/// The connection in words.
pub open spec fn connection_text(c: ConnectionState) -> Seq<char> {
    match c {
        ConnectionState::Connected => "connected"@,
        ConnectionState::Disconnected => "disconnected"@,
        ConnectionState::Reconnecting { attempt } => "reconnecting ("@ + text::decimal(
            attempt as nat,
        ) + ")"@,
    }
}

/// A second list with the same texts.
pub fn copy_texts(list: &Vec<String>) -> (r: Vec<String>)
    ensures
        messages::texts(r@) == messages::texts(list@),
{
    let mut r: Vec<String> = Vec::new();
    let mut i: usize = 0;
    while i < list.len()
        invariant
            i <= list@.len(),
            messages::texts(r@) == messages::texts(list@).subrange(0, i as int),
        decreases list.len() - i,
    {
        let ghost before = messages::texts(r@);
        r.push(list[i].clone());
        i = i + 1;
        let ghost all = messages::texts(list@);
        assert(messages::texts(r@) =~= before.push(all[i - 1]));
        assert(all.subrange(0, i as int) =~= all.subrange(0, i - 1).push(all[i - 1]));
    }
    assert(messages::texts(list@).subrange(0, i as int) =~= messages::texts(list@));
    r
}

impl WebState {
    /// What a browser is shown of the client.
    pub fn from_app(app: &App) -> (w: Self)
        ensures
            w.conn_state@ == connection_text(app@.conn_state),
            messages::opt_text(w.channel) == app@.channel,
            messages::texts(w.participants@) == app@.participants,
            w.voice_active == app@.voice_active,
            w.muted == app@.muted,
            messages::texts(w.messages@) == app@.messages,
            messages::texts(w.active_speakers@) == app@.active_speakers,
            terminal::opt_quality(w.voice_quality) == app@.voice_quality,
            w.voice_traffic == app@.voice_traffic,
            messages::opt_text(w.name) == app@.name,
    {
        let conn_state = match app.conn_state {
            ConnectionState::Connected => owned("connected"),
            ConnectionState::Disconnected => owned("disconnected"),
            ConnectionState::Reconnecting { attempt } => {
                let digits = decimal_string(attempt as u64);
                join3("reconnecting (", digits.as_str(), ")")
            },
        };
        let voice_quality = match &app.voice_quality {
            Some(q) => Some((q.0, q.1.clone())),
            None => None,
        };
        WebState {
            conn_state,
            channel: crate::state::copy_text(&app.channel),
            participants: copy_texts(&app.participants),
            voice_active: app.voice_active,
            muted: app.muted,
            messages: copy_texts(&app.messages),
            active_speakers: copy_texts(&app.active_speakers),
            voice_quality,
            voice_traffic: app.voice_traffic,
            name: crate::state::copy_text(&app.name),
        }
    }
}

/// What a browser asks for.
#[derive(Debug)]
pub enum WebCommand {
    /// A line was entered.
    Command { text: String },
}

/// The line that a browser entered, if it holds anything.
pub fn web_line(cmd: &WebCommand) -> (line: Option<String>)
    ensures
        match *cmd {
            WebCommand::Command { text } => {
                let t = text::trimmed(text@);
                messages::opt_text(line) == if t.len() > 0 {
                    Some(t)
                } else {
                    None
                }
            },
        },
{
    match cmd {
        WebCommand::Command { text } => {
            let t = text::trim(text.as_str());
            if t.as_str().is_empty() {
                None
            } else {
                Some(t)
            }
        },
    }
}

/// A rounded quotient is no more than half a unit away.
pub proof fn law_rounding_is_close(n: int, d: int)
    requires
        n >= 0,
        d > 0,
    ensures
        rounded(n, d) >= 0,
        -d <= 2 * (n - rounded(n, d) * d) <= d,
{
    let q = n / d;
    let r = n % d;
    assert(q * d + r == n && 0 <= r < d && q >= 0) by (nonlinear_arith)
        requires
            q == n / d,
            r == n % d,
            n >= 0,
            d > 0,
    ;
    assert((q + 1) * d == q * d + d) by (nonlinear_arith);
}

/// Bytes are shown as they are up to a kilobyte, then in whole kilobytes, then
/// in tenths of a megabyte and of a gigabyte, rounded.
pub proof fn law_bytes_are_readable(n: nat)
    ensures
        n < 1_024 ==> bytes_text(n) == text::decimal(n) + " B"@,
        1_024 <= n < 1_048_576 ==> exists|k: nat|
            -1_024 <= 2 * (n - k * 1_024) <= 1_024 && bytes_text(n) == #[trigger] text::decimal(k)
                + " KB"@,
        1_048_576 <= n < 1_073_741_824 ==> exists|t: nat|
            -1_048_576 <= 2 * (n * 10 - t * 1_048_576) <= 1_048_576 && bytes_text(n)
                == text::decimal(t / 10) + "."@ + #[trigger] text::decimal(t % 10) + " MB"@,
        n >= 1_073_741_824 ==> exists|t: nat|
            -1_073_741_824 <= 2 * (n * 10 - t * 1_073_741_824) <= 1_073_741_824 && bytes_text(n)
                == text::decimal(t / 10) + "."@ + #[trigger] text::decimal(t % 10) + " GB"@,
{
    law_rounding_is_close(n as int, 1_024);
    law_rounding_is_close(n as int * 10, 1_048_576);
    law_rounding_is_close(n as int * 10, 1_073_741_824);
    let k = rounded(n as int, 1_024) as nat;
    let m = rounded(n as int * 10, 1_048_576) as nat;
    let g = rounded(n as int * 10, 1_073_741_824) as nat;
    if 1_024 <= n < 1_048_576 {
        assert(bytes_text(n) == text::decimal(k) + " KB"@);
    } else if 1_048_576 <= n < 1_073_741_824 {
        assert(bytes_text(n) == text::decimal(m / 10) + "."@ + text::decimal(m % 10) + " MB"@);
    } else if n >= 1_073_741_824 {
        assert(bytes_text(n) == text::decimal(g / 10) + "."@ + text::decimal(g % 10) + " GB"@);
    }
}

/// The status bar tells whether the client is connected, and to which channel;
/// whether voice runs and is muted; who speaks; and how many are there.
pub proof fn law_status_tells(a: terminal::AppView)
    ensures
        ({
            let bar = status_bar(a);
            &&& a.conn_state == ConnectionState::Disconnected ==> bar[2] == (
                " DISCONNECTED "@,
                Tone::Alarm,
            )
            &&& a.conn_state == ConnectionState::Connected && a.channel is Some ==> bar[2] == (
                " #"@ + a.channel->0 + " "@,
                Tone::Good,
            )
            &&& a.conn_state == ConnectionState::Connected && a.channel is None ==> bar[2] == (
                " online "@,
                Tone::Idle,
            )
            &&& !a.voice_active ==> bar[4].0 == ""@
            &&& a.voice_active && a.muted ==> bar[4] == (" MUTED "@, Tone::Bad)
            &&& a.voice_active && !a.muted ==> bar[4] == (" VOICE ON "@, Tone::Good)
            &&& a.active_speakers.len() == 0 ==> bar[9].0 == ""@
            &&& a.active_speakers.len() > 0 ==> bar[9].0 == " "@ + text::joined(
                a.active_speakers,
                ", "@,
            ) + " "@
            &&& a.participants.len() > 0 ==> bar[11].0 == " "@ + text::decimal(
                a.participants.len(),
            ) + " users "@
        }),
{
}

/// The list of completions ends right above the input line where there is
/// room, and stays within the width of the screen.
pub proof fn law_popup_fits(x: int, y: int, screen_width: int, lines: int)
    requires
        0 <= x,
        0 <= y,
        0 <= screen_width,
        0 <= lines < 65536,
    ensures
        ({
            let (column, top, width, height) = popup(x, y, screen_width, lines);
            &&& column == x + 1
            &&& 0 <= width <= 40
            &&& screen_width >= 2 ==> width <= screen_width - 2
            &&& 0 <= height <= 7
            &&& lines <= 7 ==> height == lines
            &&& y >= height ==> top + height == y
            &&& top >= 0
        }),
{
}

/// A padded text starts with the text and is as wide as asked for, or as the
/// text.
pub proof fn law_padding(s: Seq<char>, width: nat, i: int)
    ensures
        padded(s, width).len() == if s.len() < width {
            width
        } else {
            s.len()
        },
        0 <= i < s.len() ==> padded(s, width)[i] == s[i],
        s.len() <= i < width ==> padded(s, width)[i] == ' ',
{
}

} // verus!
