//! The client's end of the control connection.

use bytes::BytesMut;
use vstd::prelude::*;

use crate::config;
use crate::messages;
use crate::messages::ClientMessage;
use crate::protocol;
use crate::protocol::{buffer_bytes, buffer_extend, buffer_new, extract_frames, FrameError};
use crate::session::InputError;
use crate::text;
use crate::text::{contains_char, join2, owned, split_first};

verus! {

/// An address with the default port where none is given.
pub open spec fn ported(addr: Seq<char>) -> Seq<char> {
    if addr.contains(':') {
        addr
    } else {
        addr + ":7100"@
    }
}

/// Adds the default port to an address without one.
pub fn with_default_port(addr: &str) -> (r: String)
    ensures
        r@ == ported(addr@),
{
    if contains_char(addr, ':') {
        owned(addr)
    } else {
        join2(addr, ":7100")
    }
}

/// The default port in an address is the one that the server listens on.
pub proof fn law_default_port(addr: Seq<char>)
    ensures
        ported(addr) == addr || ported(addr) == addr + ":"@ + text::decimal(
            config::TCP_PORT as nat,
        ),
        ported(ported(addr)) == ported(addr),
{
    reveal_strlit(":7100");
    reveal_strlit(":");
    reveal_with_fuel(text::decimal, 5);
    assert(":"@ + text::decimal(7100) =~= ":7100"@);
    assert(addr + ":7100"@ =~= addr + ":"@ + text::decimal(7100));
    assert((addr + ":7100"@)[addr.len() as int] == ':');
}

/// The host in an address: what stands before the first colon.
pub fn tls_host(addr: &str) -> (host: String)
    ensures
        host@ == text::before_first(addr@, ':'),
{
    let (host, _port) = split_first(addr, ':');
    host
}

/// The first message of a client.
pub fn hello_message(version: &str, pubkey: Option<Vec<u8>>) -> (msg: ClientMessage)
    ensures
        msg@ == (messages::ClientMessageView::Hello {
            version: version@,
            protocol: config::PROTOCOL_VERSION,
            pubkey: messages::opt_bytes(pubkey),
        }),
{
    ClientMessage::Hello {
        version: owned(version),
        protocol: config::PROTOCOL_VERSION,
        pubkey,
    }
}

/// The input of a connection that does not make a frame yet.
pub struct Inbox {
    pending: BytesMut,
}

impl View for Inbox {
    type V = Seq<u8>;

    closed spec fn view(&self) -> Seq<u8> {
        protocol::buffered(&self.pending)
    }
}

impl Inbox {
    /// Nothing was read yet.
    pub fn new() -> (i: Self)
        ensures
            i@ == Seq::<u8>::empty(),
    {
        Inbox { pending: buffer_new() }
    }

    /// Takes input and returns the payloads of the frames that it completes.
    /// The connection is to be dropped when too much undecoded input piles up
    /// or a frame is over the limit.
    pub fn feed(&mut self, input: &[u8]) -> (r: Result<Vec<Vec<u8>>, InputError>)
        ensures
            ({
                let all = old(self)@ + input@;
                match r {
                    Err(InputError::Overflow(len)) => {
                        &&& all.len() > config::MAX_PENDING_BUF
                        &&& len == all.len()
                        &&& final(self)@ == all
                    },
                    Err(InputError::Frame(FrameError::TooLarge(len))) => {
                        &&& all.len() <= config::MAX_PENDING_BUF
                        &&& protocol::head_too_large(protocol::after_frames(all))
                        &&& len == protocol::announced_len(protocol::after_frames(all))
                        &&& final(self)@ == protocol::after_frames(all)
                    },
                    Ok(frames) => {
                        &&& all.len() <= config::MAX_PENDING_BUF
                        &&& !protocol::head_too_large(protocol::after_frames(all))
                        &&& protocol::payloads(frames@) == protocol::complete_frames(all)
                        &&& final(self)@ == protocol::after_frames(all)
                    },
                }
            }),
    {
        buffer_extend(&mut self.pending, input);
        let len: usize = buffer_bytes(&self.pending).len();
        if len > config::MAX_PENDING_BUF {
            return Err(InputError::Overflow(len));
        }
        match extract_frames(&mut self.pending) {
            Ok(frames) => Ok(frames),
            Err(e) => Err(InputError::Frame(e)),
        }
    }
}

/// An address with a port stays as it is, and one without gets the default one.
pub proof fn law_port_is_added_once(addr: Seq<char>)
    ensures
        addr.contains(':') ==> ported(addr) == addr,
        !addr.contains(':') ==> ported(addr) == addr + ":7100"@,
{
}

} // verus!
