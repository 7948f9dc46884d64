//! What the lines that a user enters, and the messages of the server, do to the
//! terminal client.

use vstd::prelude::*;

use crate::audio;
use crate::commands;
use crate::config;
use crate::invite;
use crate::messages;
use crate::names;
use crate::network;
use crate::terminal;
use crate::text;
use crate::tls;

verus! {

/// The messages to the server among effects, in their order.
pub open spec fn sent(e: Seq<commands::EffectView>) -> Seq<messages::ClientMessageView>
    decreases e.len(),
{
    if e.len() == 0 {
        Seq::empty()
    } else {
        let before = sent(e.drop_last());
        match e.last() {
            commands::EffectView::Send(msg) => before.push(msg),
            _ => before,
        }
    }
}

/// The last line of the log.
pub open spec fn last_line(a: terminal::AppView) -> Seq<char> {
    a.messages.last()
}

proof fn lemma_sent(e: Seq<commands::EffectView>)
    requires
        e.len() <= 3,
    ensures
        e.len() == 0 ==> sent(e) == Seq::<messages::ClientMessageView>::empty(),
        e.len() == 1 ==> sent(e) == match e[0] {
            commands::EffectView::Send(m) => seq![m],
            _ => Seq::empty(),
        },
        e.len() == 2 ==> sent(e) == match (e[0], e[1]) {
            (commands::EffectView::Send(m), commands::EffectView::Send(n)) => seq![m, n],
            (commands::EffectView::Send(m), _) => seq![m],
            (_, commands::EffectView::Send(n)) => seq![n],
            _ => Seq::empty(),
        },
        e.len() == 3 ==> !(e[2] is Send) ==> sent(e) == sent(e.drop_last()),
{
    reveal_with_fuel(sent, 4);
    if e.len() == 1 {
        assert(e.drop_last() =~= Seq::<commands::EffectView>::empty());
        assert(sent(e) =~= match e[0] {
            commands::EffectView::Send(m) => seq![m],
            _ => Seq::empty(),
        });
    } else if e.len() == 2 {
        let one = e.drop_last();
        assert(one.drop_last() =~= Seq::<commands::EffectView>::empty());
        assert(one.last() == e[0]);
        assert(sent(e) =~= match (e[0], e[1]) {
            (commands::EffectView::Send(m), commands::EffectView::Send(n)) => seq![m, n],
            (commands::EffectView::Send(m), _) => seq![m],
            (_, commands::EffectView::Send(n)) => seq![n],
            _ => Seq::empty(),
        });
    }
}

/// A line that is a word, a space and more splits into the word and the rest.
proof fn lemma_split(word: Seq<char>, rest: Seq<char>)
    requires
        !word.contains(' '),
    ensures
        text::before_first(word + seq![' '] + rest, ' ') == word,
        text::after_first(word + seq![' '] + rest, ' ') == Some(rest),
{
    let s = word + seq![' '] + rest;
    text::lemma_first_index(s, ' ');
    let k = text::first_index(s, ' ');
    assert(s[word.len() as int] == ' ');
    assert(s.contains(' '));
    if k < word.len() {
        assert(word[k] == ' ');
    }
    assert(k == word.len());
    assert(text::before_first(s, ' ') =~= word);
    assert(s.subrange(k + 1, s.len() as int) =~= rest);
}

/// A line that is a single word has nothing after it.
proof fn lemma_word(word: Seq<char>)
    requires
        !word.contains(' '),
    ensures
        text::before_first(word, ' ') == word,
        text::after_first(word, ' ') is None,
{
    text::lemma_first_index(word, ' ');
    assert(text::before_first(word, ' ') =~= word);
}

/// The commands that need no connection, and their short forms.
proof fn lemma_local_commands()
    ensures
        "/matrix"@.len() == 7,
        "/trust"@.len() == 6,
        "/server"@.len() == 7,
        "/s"@.len() == 2,
        "/reconnect"@.len() == 10,
        "/r"@.len() == 2,
        "/config"@.len() == 7,
        "/cfg"@.len() == 4,
        "/name"@.len() == 5,
        "/n"@.len() == 2,
        "/mute"@.len() == 5,
        "/m"@.len() == 2,
        "/web"@.len() == 4,
        "/invite"@.len() == 7,
        "/i"@.len() == 2,
        "/quit"@.len() == 5,
        "/exit"@.len() == 5,
        "/q"@.len() == 2,
        "/help"@.len() == 5,
        "/h"@.len() == 2,
        "/matrix"@[1] == 'm',
        "/trust"@[1] == 't',
        "/server"@[1] == 's',
        "/s"@[1] == 's',
        "/reconnect"@[1] == 'r',
        "/r"@[1] == 'r',
        "/config"@[1] == 'c',
        "/config"@[2] == 'o',
        "/config"@[4] == 'f',
        "/cfg"@[1] == 'c',
        "/cfg"@[2] == 'f',
        "/name"@[1] == 'n',
        "/n"@[1] == 'n',
        "/mute"@[1] == 'm',
        "/m"@[1] == 'm',
        "/web"@[1] == 'w',
        "/invite"@[1] == 'i',
        "/i"@[1] == 'i',
        "/quit"@[1] == 'q',
        "/exit"@[1] == 'e',
        "/q"@[1] == 'q',
        "/help"@[1] == 'h',
        "/h"@[1] == 'h',
        "/matrix"@[0] == '/',
        "/trust"@[0] == '/',
        "/server"@[0] == '/',
        "/s"@[0] == '/',
        "/reconnect"@[0] == '/',
        "/r"@[0] == '/',
        "/config"@[0] == '/',
        "/cfg"@[0] == '/',
        "/name"@[0] == '/',
        "/n"@[0] == '/',
        "/mute"@[0] == '/',
        "/m"@[0] == '/',
        "/web"@[0] == '/',
        "/invite"@[0] == '/',
        "/i"@[0] == '/',
        "/quit"@[0] == '/',
        "/exit"@[0] == '/',
        "/q"@[0] == '/',
        "/help"@[0] == '/',
        "/h"@[0] == '/',
{
    reveal_strlit("/matrix");
    reveal_strlit("/trust");
    reveal_strlit("/server");
    reveal_strlit("/s");
    reveal_strlit("/reconnect");
    reveal_strlit("/r");
    reveal_strlit("/config");
    reveal_strlit("/cfg");
    reveal_strlit("/name");
    reveal_strlit("/n");
    reveal_strlit("/mute");
    reveal_strlit("/m");
    reveal_strlit("/web");
    reveal_strlit("/invite");
    reveal_strlit("/i");
    reveal_strlit("/quit");
    reveal_strlit("/exit");
    reveal_strlit("/q");
    reveal_strlit("/help");
    reveal_strlit("/h");
}

/// The commands that need a connection, and their short forms.
proof fn lemma_online_commands()
    ensures
        "/create"@.len() == 7,
        "/c"@.len() == 2,
        "/list"@.len() == 5,
        "/ls"@.len() == 3,
        "/connect"@.len() == 8,
        "/join"@.len() == 5,
        "/j"@.len() == 2,
        "/leave"@.len() == 6,
        "/l"@.len() == 2,
        "/echotest"@.len() == 9,
        "/create"@[1] == 'c',
        "/create"@[2] == 'r',
        "/c"@[1] == 'c',
        "/list"@[1] == 'l',
        "/ls"@[1] == 'l',
        "/connect"@[1] == 'c',
        "/join"@[1] == 'j',
        "/j"@[1] == 'j',
        "/leave"@[1] == 'l',
        "/l"@[1] == 'l',
        "/echotest"@[1] == 'e',
        "/create"@[0] == '/',
        "/c"@[0] == '/',
        "/list"@[0] == '/',
        "/ls"@[0] == '/',
        "/connect"@[0] == '/',
        "/join"@[0] == '/',
        "/j"@[0] == '/',
        "/leave"@[0] == '/',
        "/l"@[0] == '/',
        "/echotest"@[0] == '/',
{
    reveal_strlit("/create");
    reveal_strlit("/c");
    reveal_strlit("/list");
    reveal_strlit("/ls");
    reveal_strlit("/connect");
    reveal_strlit("/join");
    reveal_strlit("/j");
    reveal_strlit("/leave");
    reveal_strlit("/l");
    reveal_strlit("/echotest");
}

/// Whether a line is one of two commands, with `arg` after a space.
pub open spec fn is_command(input: Seq<char>, long: Seq<char>, short: Seq<char>, arg: Seq<char>) -> bool {
    input == long + seq![' '] + arg || input == short + seq![' '] + arg
}

/// `/name` with a name: the server is told the cleaned name, once, and told
/// nothing else; the client bears the name and keeps it.
pub proof fn law_name_is_sent(a: terminal::AppView, input: Seq<char>, arg: Seq<char>)
    requires
        a.link == terminal::Link::Open,
        is_command(input, "/name"@, "/n"@, arg),
        names::clean_name(arg).len() > 0,
    ensures
        ({
            let (b, e) = a.commanded(input);
            &&& sent(e) == seq![
                messages::ClientMessageView::SetName { name: names::clean_name(arg) },
            ]
            &&& e.contains(commands::EffectView::SaveSettings)
            &&& b.name == Some(names::clean_name(arg))
            &&& b.link == a.link
            &&& b.channel == a.channel
            &&& b.conn_state == a.conn_state
        }),
{
    lemma_local_commands();
    reveal_strlit("/name");
    reveal_strlit("/n");
    lemma_split("/name"@, arg);
    lemma_split("/n"@, arg);
    assert(a.commanded(input) == a.cmd_name(Some(arg)));
    let e = a.commanded(input).1;
    let msg = messages::ClientMessageView::SetName { name: names::clean_name(arg) };
    assert(e =~= seq![commands::EffectView::Send(msg), commands::EffectView::SaveSettings]);
    lemma_sent(e);
    assert(e[1] == commands::EffectView::SaveSettings);
}

/// `/name` without a name changes nothing but the log.
pub proof fn law_no_name_no_change(a: terminal::AppView, input: Seq<char>, arg: Seq<char>)
    requires
        is_command(input, "/name"@, "/n"@, arg),
        names::clean_name(arg).len() == 0,
    ensures
        a.commanded(input).0.name == a.name,
        a.commanded(input).1.len() == 0,
{
    lemma_local_commands();
    reveal_strlit("/name");
    reveal_strlit("/n");
    lemma_split("/name"@, arg);
    lemma_split("/n"@, arg);
}

/// `/create` with a name: the server is asked once for a public channel under
/// the cleaned name.
pub proof fn law_public_channel_is_asked_for(
    a: terminal::AppView,
    input: Seq<char>,
    arg: Seq<char>,
)
    requires
        a.link == terminal::Link::Open,
        a.conn_state == terminal::ConnectionState::Connected,
        is_command(input, "/create"@, "/c"@, arg),
        text::trimmed(arg).len() > 0,
        names::clean_channel_name(text::trimmed(arg)).len() > 0,
        text::byte_len(names::clean_channel_name(text::trimmed(arg)))
            <= config::MAX_CHANNEL_NAME_LEN,
    ensures
        sent(a.commanded(input).1) == seq![
            messages::ClientMessageView::CreateChannel {
                name: Some(names::clean_channel_name(text::trimmed(arg))),
            },
        ],
        a.commanded(input).1.len() == 1,
{
    lemma_local_commands();
    lemma_online_commands();
    reveal_strlit("/create");
    reveal_strlit("/c");
    lemma_split("/create"@, arg);
    lemma_split("/c"@, arg);
    assert(a.commanded(input) == a.cmd_create(Some(arg)));
    lemma_sent(a.commanded(input).1);
}

/// The commands without an argument that ask something of the server: each asks
/// once, for what its name says.
pub proof fn law_plain_requests_are_sent(a: terminal::AppView, input: Seq<char>)
    requires
        a.link == terminal::Link::Open,
        a.conn_state == terminal::ConnectionState::Connected,
    ensures
        input == "/create"@ || input == "/c"@ ==> sent(a.commanded(input).1) == seq![
            messages::ClientMessageView::CreateChannel { name: None },
        ],
        input == "/list"@ || input == "/ls"@ ==> sent(a.commanded(input).1) == seq![
            messages::ClientMessageView::ListChannels,
        ],
        input == "/echotest"@ && a.channel is None ==> sent(a.commanded(input).1) == seq![
            messages::ClientMessageView::StartEchoTest,
        ],
        input == "/echotest"@ && a.channel is Some ==> a.commanded(input).1.len() == 0,
        input == "/leave"@ || input == "/l"@ ==> {
            let (b, e) = a.commanded(input);
            &&& sent(e) == seq![messages::ClientMessageView::LeaveChannel]
            &&& e.contains(commands::EffectView::StopVoice)
            &&& b.channel is None
            &&& b.participants.len() == 0
            &&& !b.voice_active
            &&& b.voice_params is None
            &&& b.rejoin_channel is None
        },
{
    lemma_local_commands();
    lemma_online_commands();
    reveal_strlit("/create");
    reveal_strlit("/c");
    reveal_strlit("/list");
    reveal_strlit("/ls");
    reveal_strlit("/echotest");
    reveal_strlit("/leave");
    reveal_strlit("/l");
    let e = a.commanded(input).1;
    if input == "/create"@ || input == "/c"@ {
        lemma_word(input);
        assert(a.commanded(input) == a.cmd_create(None));
        lemma_sent(e);
    } else if input == "/list"@ || input == "/ls"@ {
        lemma_word(input);
        assert(a.commanded(input) == a.cmd_list());
        lemma_sent(e);
    } else if input == "/echotest"@ {
        lemma_word(input);
        assert(a.commanded(input) == a.cmd_echotest());
        lemma_sent(e);
    } else if input == "/leave"@ || input == "/l"@ {
        lemma_word(input);
        assert(a.commanded(input) == a.cmd_leave());
        assert(e =~= seq![
            commands::EffectView::Send(messages::ClientMessageView::LeaveChannel),
            commands::EffectView::StopVoice,
        ]);
        lemma_sent(e);
        assert(e[1] == commands::EffectView::StopVoice);
    }
}

proof fn lemma_joins(a: terminal::AppView, word: Seq<char>, arg: Seq<char>)
    requires
        a.link == terminal::Link::Open,
        a.conn_state == terminal::ConnectionState::Connected,
        word == "/connect"@ || word == "/join"@ || word == "/j"@,
        text::trimmed(arg).len() > 0,
    ensures
        a.commanded(word + seq![' '] + arg) == a.joining(text::trimmed(arg)),
{
    lemma_local_commands();
    lemma_online_commands();
    reveal_strlit("/connect");
    reveal_strlit("/join");
    reveal_strlit("/j");
    lemma_split(word, arg);
}

/// A channel is joined under the id that is given, without the white space
/// around it, whichever way it is asked for.
pub proof fn law_join_is_sent(a: terminal::AppView, input: Seq<char>, arg: Seq<char>)
    requires
        a.link == terminal::Link::Open,
        a.conn_state == terminal::ConnectionState::Connected,
        is_command(input, "/connect"@, "/join"@, arg) || is_command(input, "/j"@, "/j"@, arg),
        text::trimmed(arg).len() > 0,
    ensures
        sent(a.commanded(input).1) == seq![
            messages::ClientMessageView::JoinChannel { channel_id: text::trimmed(arg) },
        ],
        a.commanded(input).1.len() == 1,
        a.commanded(input).0.channel == a.channel,
{
    if input == "/connect"@ + seq![' '] + arg {
        lemma_joins(a, "/connect"@, arg);
    } else if input == "/join"@ + seq![' '] + arg {
        lemma_joins(a, "/join"@, arg);
    } else {
        lemma_joins(a, "/j"@, arg);
    }
    lemma_sent(a.commanded(input).1);
}

/// What starts with neither a slash nor a hash sign is said in the channel, as
/// it was entered, and shows in the log.
pub proof fn law_text_is_sent(a: terminal::AppView, input: Seq<char>)
    requires
        a.link == terminal::Link::Open,
        a.conn_state == terminal::ConnectionState::Connected,
        input.len() > 0,
        input[0] != '/',
        input[0] != '#',
        input[0] != ' ',
    ensures
        sent(a.commanded(input).1) == seq![
            messages::ClientMessageView::ChatMessage { text: input },
        ],
        a.commanded(input).1.len() == 1,
        last_line(a.commanded(input).0) == "you: "@ + input,
{
    lemma_local_commands();
    lemma_online_commands();
    text::lemma_first_index(input, ' ');
    let head = text::before_first(input, ' ');
    assert(head.len() > 0) by {
        if text::first_index(input, ' ') == 0 {
            assert(input[0] == ' ');
        }
    }
    assert(head[0] == input[0]);
    assert(a.commanded(input) == a.cmd_default(input, head));
    lemma_sent(a.commanded(input).1);
}

/// A hash sign and an id ask to join that channel.
pub proof fn law_hash_joins(a: terminal::AppView, input: Seq<char>)
    requires
        a.link == terminal::Link::Open,
        a.conn_state == terminal::ConnectionState::Connected,
        input.len() > 0,
        input[0] == '#',
        text::trimmed(input.drop_first()).len() > 0,
    ensures
        sent(a.commanded(input).1) == seq![
            messages::ClientMessageView::JoinChannel {
                channel_id: text::trimmed(input.drop_first()),
            },
        ],
        a.commanded(input).1.len() == 1,
{
    lemma_local_commands();
    lemma_online_commands();
    text::lemma_first_index(input, ' ');
    let head = text::before_first(input, ' ');
    assert(head.len() > 0) by {
        if text::first_index(input, ' ') == 0 {
            assert(input[0] == ' ');
        }
    }
    assert(head[0] == input[0]);
    assert(a.commanded(input) == a.cmd_default(input, head));
    lemma_sent(a.commanded(input).1);
}

/// No line makes more than one message, and without an open line to the server
/// none makes any.
pub proof fn law_one_line_one_message(a: terminal::AppView, input: Seq<char>)
    ensures
        sent(a.commanded(input).1).len() <= 1,
        a.link != terminal::Link::Open ==> sent(a.commanded(input).1).len() == 0,
{
    let e = a.commanded(input).1;
    assert(e.len() <= 3);
    lemma_sent(e);
    if e.len() == 3 {
        lemma_sent(e.drop_last());
    }
}

/// `/mute` turns the microphone off or on, tells nobody, and changes nothing
/// else but the log.
pub proof fn law_mute_is_local(a: terminal::AppView, input: Seq<char>)
    requires
        input == "/mute"@ || input == "/m"@,
    ensures
        ({
            let (b, e) = a.commanded(input);
            &&& b.muted == !a.muted
            &&& e.len() == 0
            &&& last_line(b) == if b.muted {
                "muted"@
            } else {
                "unmuted"@
            }
            &&& b == (terminal::AppView {
                muted: b.muted,
                messages: b.messages,
                dirty: b.dirty,
                scroll_offset: b.scroll_offset,
                ..a
            })
        }),
{
    lemma_local_commands();
    reveal_strlit("/mute");
    reveal_strlit("/m");
    lemma_word(input);
    assert(a.commanded(input) == a.cmd_mute());
}

/// `/server` with an address: it is kept, with the default port where it has
/// none, and a client that is not connected connects to it.
pub proof fn law_server_is_set(a: terminal::AppView, input: Seq<char>, arg: Seq<char>)
    requires
        is_command(input, "/server"@, "/s"@, arg),
        text::trimmed(arg).len() > 0,
    ensures
        ({
            let (b, e) = a.commanded(input);
            &&& b.server_addr == network::ported(text::trimmed(arg))
            &&& e.contains(commands::EffectView::SaveSettings)
            &&& sent(e).len() == 0
            &&& a.conn_state != terminal::ConnectionState::Connected ==> e.contains(
                commands::EffectView::Connect(commands::Occasion::Asked),
            )
            &&& a.conn_state == terminal::ConnectionState::Connected ==> e.len() == 1
        }),
{
    lemma_local_commands();
    reveal_strlit("/server");
    reveal_strlit("/s");
    lemma_split("/server"@, arg);
    lemma_split("/s"@, arg);
    assert(a.commanded(input) == a.cmd_server(Some(arg)));
    let e = a.commanded(input).1;
    lemma_sent(e);
    assert(e[0] == commands::EffectView::SaveSettings);
    if a.conn_state != terminal::ConnectionState::Connected {
        assert(e[1] == commands::EffectView::Connect(commands::Occasion::Asked));
    }
}

/// `/reconnect` drops the connection and the channel, and makes a new one.
pub proof fn law_reconnect_connects(a: terminal::AppView, input: Seq<char>)
    requires
        input == "/reconnect"@ || input == "/r"@,
    ensures
        ({
            let (b, e) = a.commanded(input);
            &&& e == seq![commands::EffectView::Connect(commands::Occasion::Asked)]
            &&& b.link == terminal::Link::Absent
            &&& b.channel is None
            &&& !b.voice_active
            &&& b.next_reconnect is None
            &&& b.server_addr == a.server_addr
        }),
{
    lemma_local_commands();
    reveal_strlit("/reconnect");
    reveal_strlit("/r");
    lemma_word(input);
    assert(a.commanded(input) == a.reconnecting());
}

/// `/quit` quits, and `/invite` shows the link to the server and channel;
/// neither has an effect outside the client.
pub proof fn law_quit_and_invite(a: terminal::AppView, input: Seq<char>)
    ensures
        input == "/quit"@ || input == "/exit"@ || input == "/q"@ ==> a.commanded(
            input,
        ).0.should_quit && a.commanded(input).1.len() == 0,
        input == "/invite"@ || input == "/i"@ ==> {
            &&& last_line(a.commanded(input).0) == invite::invite_link(a.server_addr, a.channel)
            &&& a.commanded(input).1.len() == 0
            &&& a.commanded(input).0.should_quit == a.should_quit
        },
{
    lemma_local_commands();
    reveal_strlit("/quit");
    reveal_strlit("/exit");
    reveal_strlit("/q");
    reveal_strlit("/invite");
    reveal_strlit("/i");
    if input == "/quit"@ || input == "/exit"@ || input == "/q"@ || input == "/invite"@ || input
        == "/i"@ {
        lemma_word(input);
    }
}

/// A number in decimal digits reads as that number.
proof fn lemma_number(n: nat, max: int)
    requires
        n <= max,
    ensures
        text::number_in(text::decimal(n), max) == Some(n as int),
        text::trimmed(text::decimal(n)) == text::decimal(n),
        text::decimal(n).len() > 0,
        !text::decimal(n).contains(' '),
{
    text::law_decimal_round_trip(n);
    let d = text::decimal(n);
    assert(text::is_digit(d[0]));
    assert(text::is_digit(d[d.len() - 1]));
    assert(text::trim_front(d) == d);
    assert(text::trim_back(d) == d);
    if d.contains(' ') {
        let i = choose|i: int| 0 <= i < d.len() && d[i] == ' ';
        assert(text::is_digit(d[i]));
    }
}

/// `/config gain`, `/config vol` and `/config vad` with a number in range set
/// exactly that, keep it, and touch neither of the others.
pub proof fn law_config_sets(a: terminal::AppView, what: Seq<char>, n: u32)
    requires
        what == "gain"@ && n <= 200 || what == "vol"@ && n <= 200 || what == "vad"@ && n <= 100,
    ensures
        ({
            let (b, e) = a.commanded(
                "/config"@ + seq![' '] + (what + seq![' '] + text::decimal(n as nat)),
            );
            &&& e == seq![commands::EffectView::SaveSettings]
            &&& b.input_gain == if what == "gain"@ {
                n
            } else {
                a.input_gain
            }
            &&& b.output_vol == if what == "vol"@ {
                n
            } else {
                a.output_vol
            }
            &&& b.vad_level == if what == "vad"@ {
                n
            } else {
                a.vad_level
            }
            &&& b.muted == a.muted
            &&& b.channel == a.channel
        }),
{
    lemma_local_commands();
    reveal_strlit("/config");
    reveal_strlit("gain");
    reveal_strlit("vol");
    reveal_strlit("vad");
    reveal_strlit("input");
    reveal_strlit("output");
    reveal_strlit("off");
    let d = text::decimal(n as nat);
    let arg = what + seq![' '] + d;
    lemma_number(n as nat, u32::MAX as int);
    lemma_split("/config"@, arg);
    lemma_split(what, d);
    text::law_decimal_round_trip(n as nat);
    assert(arg[0] == what[0]);
    assert(!text::is_space(arg[0]));
    assert(arg[arg.len() - 1] == d[d.len() - 1]);
    assert(text::is_digit(d[d.len() - 1]));
    assert(text::trim_front(arg) == arg);
    assert(text::trim_back(arg) == arg);
    assert(text::is_digit(d[0]));
    assert(d != "off"@);
    assert(a.commanded("/config"@ + seq![' '] + arg) == a.cmd_config(Some(arg)));
    assert(commands::given(Some(arg)) == Some(arg));
    assert("vol"@[1] != "vad"@[1]);
    if what == "gain"@ {
        assert(a.cmd_config(Some(arg)) == a.config_gain(d));
    } else if what == "vol"@ {
        assert(a.cmd_config(Some(arg)) == a.config_vol(d));
    } else {
        assert(a.cmd_config(Some(arg)) == a.config_vad(d));
    }
}

/// The values that `/config` sets stay in their range: a number that is too
/// large changes nothing.
pub proof fn law_config_stays_in_range(a: terminal::AppView, input: Seq<char>)
    ensures
        ({
            let b = a.commanded(input).0;
            &&& b.input_gain == a.input_gain || b.input_gain <= 200
            &&& b.output_vol == a.output_vol || b.output_vol <= 200
            &&& b.vad_level == a.vad_level || b.vad_level <= 100
        }),
{
    lemma_said_all_values(a, commands::help_lines());
    let arg = text::after_first(input, ' ');
    if let Some(args) = commands::given(arg) {
        if let Some(v) = text::after_first(args, ' ') {
            text::law_number_is_in_range(text::trimmed(v), u32::MAX as int);
        }
    }
}

proof fn lemma_said_all_values(a: terminal::AppView, lines: Seq<Seq<char>>)
    ensures
        a.said_all(lines).input_gain == a.input_gain,
        a.said_all(lines).output_vol == a.output_vol,
        a.said_all(lines).vad_level == a.vad_level,
        a.said_all(lines).channel == a.channel,
        a.said_all(lines).participants == a.participants,
    decreases lines.len(),
{
    if lines.len() > 0 {
        lemma_said_all_values(a, lines.drop_last());
    }
}

/// A channel that was created for the client is joined at once.
pub proof fn law_created_is_joined(a: terminal::AppView, id: Seq<char>, version: Seq<char>)
    requires
        a.link == terminal::Link::Open,
    ensures
        sent(
            a.heard(messages::ServerMessageView::ChannelCreated { channel_id: id }, version).1,
        ) == seq![messages::ClientMessageView::JoinChannel { channel_id: id }],
{
    lemma_sent(
        a.heard(messages::ServerMessageView::ChannelCreated { channel_id: id }, version).1,
    );
}

/// Nothing else that the server says makes the client send anything.
pub proof fn law_server_is_not_answered(
    a: terminal::AppView,
    msg: messages::ServerMessageView,
    version: Seq<char>,
)
    requires
        !(msg is ChannelCreated),
    ensures
        sent(a.heard(msg, version).1).len() == 0,
{
    lemma_sent(a.heard(msg, version).1);
}

/// A confirmed join puts the client into the channel with those who are in it,
/// and starts the voice with the token and the key of the channel.
pub proof fn law_joined_channel_is_shown(
    a: terminal::AppView,
    channel_id: Seq<char>,
    participants: Seq<Seq<char>>,
    udp_token: u64,
    voice_key: Seq<u8>,
    version: Seq<char>,
)
    ensures
        ({
            let (b, e) = a.heard(
                messages::ServerMessageView::JoinedChannel {
                    channel_id,
                    participants,
                    udp_token,
                    voice_key,
                },
                version,
            );
            &&& b.channel == Some(channel_id)
            &&& b.participants == participants
            &&& b.voice_params == Some(
                terminal::VoiceParamsView { channel_id, udp_token, voice_key },
            )
            &&& e == seq![commands::EffectView::StartVoice]
            &&& b.muted == a.muted
            &&& b.name == a.name
        }),
{
}

proof fn lemma_without(list: Seq<Seq<char>>, name: Seq<char>, n: Seq<char>)
    ensures
        commands::without(list, name).contains(n) <==> list.contains(n) && n != name,
        commands::without(list, name).len() <= list.len(),
        !list.contains(name) ==> commands::without(list, name) == list,
    decreases list.len(),
{
    if list.len() > 0 {
        let t = list.drop_last();
        lemma_without(t, name, n);
        assert(list =~= t.push(list.last()));
        crate::table::lemma_push_contains(t, list.last());
        assert(list.contains(n) <==> t.contains(n) || n == list.last());
        assert(list.contains(list.last())) by {
            assert(list[list.len() - 1] == list.last());
        }
        let rest = commands::without(t, name);
        crate::table::lemma_push_contains(rest, list.last());
        assert(rest.push(list.last()).contains(n) <==> rest.contains(n) || n == list.last());
        if !list.contains(name) {
            assert(t.contains(name) ==> list.contains(name));
        }
    }
}

/// Those who come are shown and those who leave are not shown any more; nobody
/// else is touched, and both show in the log.
pub proof fn law_participants_are_followed(
    a: terminal::AppView,
    peer_name: Seq<char>,
    other: Seq<char>,
    version: Seq<char>,
)
    requires
        other != peer_name,
    ensures
        ({
            let b = a.heard(messages::ServerMessageView::PeerJoined { peer_name }, version).0;
            let c = a.heard(messages::ServerMessageView::PeerLeft { peer_name }, version).0;
            &&& b.participants == a.participants.push(peer_name)
            &&& b.participants.contains(peer_name)
            &&& last_line(b) == peer_name + " joined"@
            &&& !c.participants.contains(peer_name)
            &&& c.participants.contains(other) <==> a.participants.contains(other)
            &&& !a.participants.contains(peer_name) ==> c.participants == a.participants
            &&& last_line(c) == peer_name + " left"@
            &&& b.channel == a.channel
            &&& c.channel == a.channel
        }),
{
    lemma_without(a.participants, peer_name, peer_name);
    lemma_without(a.participants, peer_name, other);
    let p = a.participants.push(peer_name);
    assert(p[p.len() - 1] == peer_name);
}

proof fn lemma_renamed(list: Seq<Seq<char>>, old_name: Seq<char>, new_name: Seq<char>)
    ensures
        commands::with_renamed(list, old_name, new_name).len() == list.len(),
        !list.contains(old_name) ==> commands::with_renamed(list, old_name, new_name) == list,
        list.contains(old_name) ==> exists|i: int|
            0 <= i < list.len() && list[i] == old_name && commands::with_renamed(
                list,
                old_name,
                new_name,
            ) == #[trigger] list.update(i, new_name),
    decreases list.len(),
{
    if list.len() > 0 {
        if list[0] == old_name {
            assert(list.contains(old_name));
        } else {
            let t = list.drop_first();
            lemma_renamed(t, old_name, new_name);
            let r = commands::with_renamed(t, old_name, new_name);
            if list.contains(old_name) {
                let j = choose|j: int| 0 <= j < list.len() && list[j] == old_name;
                assert(t[j - 1] == old_name);
                assert(t.contains(old_name));
                let i = choose|i: int|
                    0 <= i < t.len() && t[i] == old_name && r == #[trigger] t.update(i, new_name);
                assert(list[i + 1] == old_name);
                assert(seq![list[0]] + r =~= list.update(i + 1, new_name));
            } else {
                if t.contains(old_name) {
                    let i = choose|i: int| 0 <= i < t.len() && t[i] == old_name;
                    assert(list[i + 1] == old_name);
                }
                assert(seq![list[0]] + r =~= list);
            }
        }
    }
}

/// A new name takes the place of the old one, and nothing else changes in the
/// list of those who are in the channel.
pub proof fn law_rename_is_shown(
    a: terminal::AppView,
    old_name: Seq<char>,
    new_name: Seq<char>,
    version: Seq<char>,
)
    ensures
        ({
            let b = a.heard(
                messages::ServerMessageView::NameChanged { old_name, new_name },
                version,
            ).0;
            &&& b.participants.len() == a.participants.len()
            &&& !a.participants.contains(old_name) ==> b.participants == a.participants
            &&& a.participants.contains(old_name) ==> exists|i: int|
                0 <= i < a.participants.len() && a.participants[i] == old_name && b.participants
                    == #[trigger] a.participants.update(i, new_name)
            &&& last_line(b) == old_name + " is now "@ + new_name
        }),
{
    lemma_renamed(a.participants, old_name, new_name);
}

/// What others say, errors, and a confirmed leave show in the log; a leave also
/// ends the voice, and the channel is not gone back to.
pub proof fn law_news_are_shown(
    a: terminal::AppView,
    from: Seq<char>,
    body: Seq<char>,
    key: Seq<u8>,
    version: Seq<char>,
)
    ensures
        last_line(
            a.heard(messages::ServerMessageView::ChatMessage { from, text: body }, version).0,
        ) == from + ": "@ + body,
        last_line(
            a.heard(
                messages::ServerMessageView::DirectMessage {
                    from_pubkey: key,
                    from_name: from,
                    text: body,
                },
                version,
            ).0,
        ) == "(dm) "@ + from + ": "@ + body,
        last_line(a.heard(messages::ServerMessageView::Error { message: body }, version).0)
            == "error: "@ + body,
        ({
            let (b, e) = a.heard(messages::ServerMessageView::LeftChannel, version);
            &&& b.channel is None
            &&& b.participants.len() == 0
            &&& !b.voice_active
            &&& b.voice_params is None
            &&& b.rejoin_channel is None
            &&& e == seq![commands::EffectView::StopVoice]
        }),
        a.heard(messages::ServerMessageView::Pong, version) == (
            a,
            Seq::<commands::EffectView>::empty(),
        ),
{
}

/// A server that speaks another protocol, or another version of this one, is
/// reported; one with the same of both is not.
pub proof fn law_versions_are_compared(
    a: terminal::AppView,
    version: Seq<char>,
    protocol: u16,
    mine: Seq<char>,
)
    requires
        a.wf(),
    ensures
        ({
            let b = a.heard(
                messages::ServerMessageView::Welcome { version, protocol },
                mine,
            ).0;
            &&& protocol == config::PROTOCOL_VERSION && version == mine ==> b == a
            &&& protocol == config::PROTOCOL_VERSION && version != mine ==> last_line(b)
                == "server version "@ + version + " (you have "@ + mine + "), consider updating"@
            &&& protocol != config::PROTOCOL_VERSION ==> last_line(b)
                == "please update your client to match the server"@
        }),
{
}

/// A sound check starts with what the server gave for it, and when its time is
/// up the voice stops and the server is told.
pub proof fn law_sound_check_runs(
    a: terminal::AppView,
    channel_id: Seq<char>,
    udp_token: u64,
    voice_key: Seq<u8>,
    version: Seq<char>,
)
    ensures
        ({
            let (b, e) = a.heard(
                messages::ServerMessageView::EchoTestReady { channel_id, udp_token, voice_key },
                version,
            );
            &&& b.voice_params == Some(
                terminal::VoiceParamsView { channel_id, udp_token, voice_key },
            )
            &&& b.channel == a.channel
            &&& e == seq![commands::EffectView::StartEcho]
        }),
        a.link == terminal::Link::Open ==> sent(a.sound_checked().1) == seq![
            messages::ClientMessageView::StopEchoTest,
        ],
        a.sound_checked().1.contains(commands::EffectView::StopVoice),
        a.sound_checked().0.voice_params is None,
        !a.sound_checked().0.voice_active,
{
    let e = a.sound_checked().1;
    lemma_sent(e);
    assert(e[e.len() - 1] == commands::EffectView::StopVoice);
}

/// A connection that was made is used at once: the name is told, then the
/// channel that was lost is asked for, and nothing else. No further attempt is
/// due.
pub proof fn law_connected_client_introduces_itself(
    a: terminal::AppView,
    occasion: commands::Occasion,
    result: Option<tls::TofuResultView>,
)
    ensures
        ({
            let (b, e) = a.connected(occasion, result);
            &&& sent(e) == (match a.name {
                Some(name) => seq![messages::ClientMessageView::SetName { name }],
                None => Seq::empty(),
            }) + (match a.rejoin_channel {
                Some(channel_id) => seq![messages::ClientMessageView::JoinChannel { channel_id }],
                None => Seq::empty(),
            })
            &&& e.contains(commands::EffectView::SaveTrust)
            &&& b.conn_state == terminal::ConnectionState::Connected
            &&& b.link == terminal::Link::Open
            &&& b.next_reconnect is None
            &&& b.reconnect_attempt == 0
            &&& b.rejoin_channel is None
            &&& b.name == a.name
        }),
{
    let e = a.connected(occasion, result).1;
    assert(e[e.len() - 1] == commands::EffectView::SaveTrust);
    lemma_sent(e);
    lemma_sent(e.drop_last());
    assert(sent(e) =~= (match a.name {
        Some(name) => seq![messages::ClientMessageView::SetName { name }],
        None => Seq::empty(),
    }) + (match a.rejoin_channel {
        Some(channel_id) => seq![messages::ClientMessageView::JoinChannel { channel_id }],
        None => Seq::empty(),
    }));
}

/// A connection that was lost takes the voice with it, and a new one is tried a
/// second later, not before; the channel is remembered.
pub proof fn law_lost_connection_is_retried(a: terminal::AppView, now: u64, later: u64)
    requires
        now <= u64::MAX - 1_000,
    ensures
        ({
            let (b, e) = a.lost(now);
            &&& e == seq![commands::EffectView::StopVoice]
            &&& b.channel is None
            &&& !b.voice_active
            &&& b.link == terminal::Link::Absent
            &&& b.conn_state != terminal::ConnectionState::Connected
            &&& a.channel is Some ==> b.rejoin_channel == a.channel
            &&& later < now + 1_000 ==> b.ticked(later) == (
                b,
                Seq::<commands::EffectView>::empty(),
            )
            &&& later >= now + 1_000 ==> b.ticked(later).1 == seq![
                commands::EffectView::Connect(commands::Occasion::Automatic),
            ] && b.ticked(later).0.reconnect_attempt == 1
        }),
{
}

/// An automatic attempt that failed is repeated, each time after a longer wait,
/// but at least twice a minute.
pub proof fn law_failed_attempt_is_repeated(
    a: terminal::AppView,
    error: Seq<char>,
    now: u64,
)
    requires
        now <= u64::MAX - 30_000,
    ensures
        ({
            let b = a.connect_failed(commands::Occasion::Automatic, None, error, now);
            &&& b.next_reconnect matches Some(due) && now + 1_000 <= due <= now + 30_000
            &&& a.reconnect_attempt < 5 ==> b.next_reconnect == Some(
                (now + 1_000 * vstd::arithmetic::power2::pow2(a.reconnect_attempt as nat)) as u64,
            )
            &&& a.reconnect_attempt >= 5 ==> b.next_reconnect == Some((now + 30_000) as u64)
            &&& b.rejoin_channel == a.rejoin_channel
        }),
{
    vstd::arithmetic::power2::lemma2_to64();
}

/// A connection that the user asked for and that failed is not tried again by
/// itself, and the user learns why.
pub proof fn law_failure_is_shown(
    a: terminal::AppView,
    error: Seq<char>,
    now: u64,
)
    ensures
        ({
            let b = a.connect_failed(commands::Occasion::Asked, None, error, now);
            &&& last_line(b) == "connection failed: "@ + error
            &&& b.conn_state == terminal::ConnectionState::Disconnected
            &&& b.next_reconnect == a.next_reconnect
        }),
{
}

/// Voice that was started runs and the user is told; voice that could not be is
/// not said to run, and the user learns why.
pub proof fn law_voice_start_is_shown(a: terminal::AppView, again: bool, error: Seq<char>)
    ensures
        a.voiced(again, Ok(())).voice_active,
        last_line(a.voiced(false, Ok(()))) == "voice active"@,
        last_line(a.voiced(true, Ok(()))) == "voice restarted"@,
        a.voiced(again, Err(error)).voice_active == a.voice_active,
        last_line(a.voiced(false, Err(error))) == "voice error: "@ + error,
        last_line(a.voiced(true, Err(error))) == "voice restart error: "@ + error,
        a.voiced(again, Ok(())).channel == a.channel,
        a.voiced(again, Err(error)).channel == a.channel,
{
}

/// A device that is picked by its index is the one that is used from then on
/// and kept, and voice that runs moves to it; the other kind of device stays.
/// An index that no device has changes nothing.
pub proof fn law_picked_device_is_used(
    a: terminal::AppView,
    devices: Seq<audio::DeviceInfoView>,
    i: int,
    index: usize,
)
    requires
        0 <= i < devices.len(),
        forall|j: int| 0 <= j < i ==> (#[trigger] devices[j]).index != devices[i].index,
        forall|j: int| 0 <= j < devices.len() ==> (#[trigger] devices[j]).index != index,
    ensures
        ({
            let (m, me) = a.picked(true, Ok(devices), devices[i].index);
            let (l, le) = a.picked(false, Ok(devices), devices[i].index);
            &&& m.input_device == Some(devices[i].name)
            &&& m.output_device == a.output_device
            &&& l.output_device == Some(devices[i].name)
            &&& l.input_device == a.input_device
            &&& me.contains(commands::EffectView::SaveSettings)
            &&& le.contains(commands::EffectView::SaveSettings)
            &&& me.contains(commands::EffectView::RestartVoice) <==> a.voice_params is Some
            &&& le.contains(commands::EffectView::RestartVoice) <==> a.voice_params is Some
            &&& a.picked(true, Ok(devices), index).0.input_device == a.input_device
            &&& a.picked(false, Ok(devices), index).0.output_device == a.output_device
            &&& a.picked(true, Ok(devices), index).1.len() == 0
            &&& a.picked(false, Ok(devices), index).1.len() == 0
        }),
{
    audio::law_first_of_an_index(devices, devices[i].index);
    audio::law_first_of_an_index(devices, index);
    assert(audio::at_index(devices, devices[i].index) == Some(devices[i].name)) by {
        assert(devices[i].index == devices[i].index);
    }
    assert(audio::at_index(devices, index) is None);
    let me = a.picked(true, Ok(devices), devices[i].index).1;
    let le = a.picked(false, Ok(devices), devices[i].index).1;
    assert(me[0] == commands::EffectView::SaveSettings);
    assert(le[0] == commands::EffectView::SaveSettings);
    if a.voice_params is Some {
        assert(me[1] == commands::EffectView::RestartVoice);
        assert(le[1] == commands::EffectView::RestartVoice);
    }
}

/// `/web` with a port starts the web interface on that port, and says where it
/// is; nothing else does.
pub proof fn law_web_starts(a: terminal::AppView, port: u16)
    ensures
        ({
            let input = "/web"@ + seq![' '] + text::decimal(port as nat);
            &&& a.commanded(input).1 == seq![commands::EffectView::StartWeb(port)]
            &&& last_line(a.commanded(input).0) == "web UI at http://127.0.0.1:"@ + text::decimal(
                port as nat,
            )
            &&& a.commanded("/web"@).1.len() == 0
        }),
{
    lemma_local_commands();
    reveal_strlit("/web");
    lemma_number(port as nat, u16::MAX as int);
    lemma_split("/web"@, text::decimal(port as nat));
    lemma_word("/web"@);
    let input = "/web"@ + seq![' '] + text::decimal(port as nat);
    assert(a.commanded(input) == a.cmd_web(Some(text::decimal(port as nat))));
    assert(a.commanded("/web"@) == a.cmd_web(None));
}

/// `/trust` forgets the fingerprint of the server, keeps that, and connects
/// anew, in this order; the voice and the channel end.
pub proof fn law_trust_starts_over(a: terminal::AppView)
    ensures
        ({
            let (b, e) = a.commanded("/trust"@);
            &&& e == seq![
                commands::EffectView::ForgetServer,
                commands::EffectView::SaveTrust,
                commands::EffectView::Connect(commands::Occasion::Asked),
            ]
            &&& b.channel is None
            &&& !b.voice_active
            &&& b.link == terminal::Link::Absent
            &&& b.server_addr == a.server_addr
        }),
{
    lemma_local_commands();
    reveal_strlit("/trust");
    lemma_word("/trust"@);
    assert(a.commanded("/trust"@) == a.cmd_trust());
}

/// `/matrix` starts the rain and stops it again, and does nothing else.
pub proof fn law_rain_starts_and_stops(a: terminal::AppView)
    ensures
        a.commanded("/matrix"@).0 == (terminal::AppView { matrix_mode: !a.matrix_mode, ..a }),
        a.commanded("/matrix"@).0.commanded("/matrix"@).0 == a,
        !a.matrix_mode ==> a.commanded("/matrix"@).1 == seq![commands::EffectView::ResetRain],
        a.matrix_mode ==> a.commanded("/matrix"@).1.len() == 0,
{
    reveal_strlit("/matrix");
    lemma_word("/matrix"@);
}

/// A certificate that was never seen is shown, one that has changed is shown
/// with the one before, and one that is known is not spoken of.
pub proof fn law_certificate_is_told(
    a: terminal::AppView,
    fp: Seq<char>,
    was: Seq<char>,
)
    ensures
        last_line(a.told_trust(Some(tls::TofuResultView::TrustedNew(fp))))
            == "new server fingerprint: "@ + fp,
        last_line(
            a.told_trust(Some(tls::TofuResultView::Mismatch { expected: was, actual: fp })),
        ) == "  new: "@ + fp,
        a.told_trust(Some(tls::TofuResultView::Mismatch { expected: was, actual: fp }))
            == a.said_all(
            seq![
                "server certificate changed (auto-trusted)"@,
                "  old: "@ + was,
                "  new: "@ + fp,
            ],
        ),
        a.told_trust(Some(tls::TofuResultView::TrustedKnown)) == a,
{
    reveal_with_fuel(terminal::AppView::said_all, 4);
    let lines = seq![
        "server certificate changed (auto-trusted)"@,
        "  old: "@ + was,
        "  new: "@ + fp,
    ];
    let two = lines.drop_last();
    let one = two.drop_last();
    assert(one.drop_last() =~= Seq::<Seq<char>>::empty());
    assert(a.said_all(one) == a.said(lines[0]));
    assert(a.said_all(two) == a.said(lines[0]).said(lines[1]));
    assert(a.said_all(lines) == a.said(lines[0]).said(lines[1]).said(lines[2]));
}

/// A message goes out exactly over an open line. One that was closed is noticed
/// then: the client counts as disconnected and says so.
pub proof fn law_closed_line_is_noticed(
    a: terminal::AppView,
    msg: messages::ClientMessageView,
)
    ensures
        a.link == terminal::Link::Open ==> a.dispatched(msg) == (
            a,
            seq![commands::EffectView::Send(msg)],
        ),
        a.link != terminal::Link::Open ==> a.dispatched(msg).1.len() == 0,
        a.link == terminal::Link::Closed ==> {
            &&& a.dispatched(msg).0.link == terminal::Link::Absent
            &&& a.dispatched(msg).0.conn_state == terminal::ConnectionState::Disconnected
            &&& last_line(a.dispatched(msg).0) == "disconnected from server"@
        },
        a.link == terminal::Link::Absent ==> a.dispatched(msg).0 == a,
{
}

/// In the list of devices the chosen one is marked as such.
pub proof fn law_chosen_device_is_marked(d: audio::DeviceInfoView)
    ensures
        text::has_suffix(commands::device_line(d, Some(d.name)), " [selected]"@),
        text::has_prefix(
            commands::device_line(d, Some(d.name)),
            "  "@ + text::decimal(d.index as nat) + ". "@ + d.name,
        ),
{
    let head = "  "@ + text::decimal(d.index as nat) + ". "@ + d.name;
    let mark = " [selected]"@;
    let line = head + mark;
    assert(line.subrange(line.len() - mark.len(), line.len() as int) =~= mark);
    assert(line.subrange(0, head.len() as int) =~= head);
}

} // verus!
