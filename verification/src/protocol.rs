//! Messages of the control channel, voice packets, and TCP framing.

use bytes::BytesMut;
use vstd::prelude::*;
use vstd::utf8;

use crate::config;
use crate::text::utf8_str;
use crate::wire;
use crate::wire::{push_be, read_be};

verus! {

// ---------------------------------------------------------------------------
// Channel ids
// ---------------------------------------------------------------------------

/// Short alphanumeric channel identifier.
pub type ChannelId = String;

/// The letters and digits of generated channel ids; look-alikes are left out.
pub const CHANNEL_ID_CHARSET: &'static str = "abcdefghjkmnpqrstuvwxyz23456789";

/// A generated channel id: five characters of the charset.
pub open spec fn is_generated_id(id: Seq<char>) -> bool {
    &&& id.len() == config::CHANNEL_ID_LEN
    &&& forall|i: int| 0 <= i < id.len() ==> CHANNEL_ID_CHARSET@.contains(#[trigger] id[i])
}

// ---------------------------------------------------------------------------
// UDP hello
// ---------------------------------------------------------------------------

/// Size of a UDP hello: four zero bytes and the token.
pub const UDP_HELLO_SIZE: usize = 12;

/// The hello that carries `token`.
pub open spec fn udp_hello(token: u64) -> Seq<u8> {
    wire::be_bytes(0, 4) + wire::be_bytes(token as nat, 8)
}

/// The token that a datagram carries, where it is a hello.
pub open spec fn hello_token(data: Seq<u8>) -> Option<nat> {
    if data.len() == UDP_HELLO_SIZE && wire::be_value(data.subrange(0, 4)) == 0 {
        Some(wire::be_value(data.subrange(4, 12)))
    } else {
        None
    }
}

/// Encodes a UDP hello with the given token.
pub fn encode_udp_hello(token: u64) -> (data: Vec<u8>)
    ensures
        data@ == udp_hello(token),
{
    let mut data: Vec<u8> = Vec::new();
    push_be(&mut data, 0, 4);
    push_be(&mut data, token, 8);
    assert(data@ =~= udp_hello(token));
    data
}

/// The token of a UDP hello, or nothing for any other datagram.
pub fn decode_udp_hello(data: &[u8]) -> (token: Option<u64>)
    ensures
        token is Some <==> hello_token(data@) is Some,
        token matches Some(t) ==> hello_token(data@) == Some(t as nat),
{
    if data.len() != UDP_HELLO_SIZE {
        return None;
    }
    let seq: u64 = read_be(data, 0, 4);
    if seq != 0 {
        return None;
    }
    Some(read_be(data, 4, 8))
}

/// A hello is read back with the token that was put into it.
pub proof fn law_udp_hello_round_trip(token: u64)
    ensures
        udp_hello(token).len() == UDP_HELLO_SIZE,
        hello_token(udp_hello(token)) == Some(token as nat),
{
    wire::lemma_pow256_values();
    wire::lemma_be_bytes_len(0, 4);
    wire::lemma_be_bytes_len(token as nat, 8);
    wire::law_be_read_write(0, 4);
    wire::law_be_read_write(token as nat, 8);
    assert(udp_hello(token).subrange(0, 4) =~= wire::be_bytes(0, 4));
    assert(udp_hello(token).subrange(4, 12) =~= wire::be_bytes(token as nat, 8));
}

/// A hello is the encoding of the token that it carries.
pub proof fn lemma_hello_is_udp_hello(data: Seq<u8>)
    requires
        hello_token(data) is Some,
    ensures
        data == udp_hello(hello_token(data)->0 as u64),
{
    let token = data.subrange(4, 12);
    wire::lemma_be_value_bound(token);
    wire::lemma_pow256_values();
    wire::law_be_write_read(data.subrange(0, 4));
    wire::law_be_write_read(token);
    assert(data =~= data.subrange(0, 4) + token);
}

// ---------------------------------------------------------------------------
// Voice packets
// ---------------------------------------------------------------------------

/// The sequence number after another one: voice never has number 0.
pub open spec fn following(seq: u32) -> u32 {
    if seq == u32::MAX {
        1
    } else {
        (seq + 1) as u32
    }
}

/// The sequence number after another one.
pub fn next_sequence(seq: u32) -> (n: u32)
    ensures
        n == following(seq),
        n != 0,
{
    let n: u32 = seq.wrapping_add(1);
    if n == 0 {
        1
    } else {
        n
    }
}

/// Voice packet.
///
/// Wire format, big-endian:
/// ```text
/// [0..4]   sequence: u32 (never 0 for voice)
/// [4..5]   channel_id_len: u8
/// [5..5+N] channel_id: UTF-8 bytes
/// [rest]   opus_data
/// ```
#[derive(Debug, Clone)]
pub struct VoicePacket {
    pub sequence: u32,
    pub channel_id: ChannelId,
    pub opus_data: Vec<u8>,
}

/// What a voice packet holds.
#[verifier::ext_equal]
pub struct VoicePacketView {
    pub sequence: u32,
    pub channel_id: Seq<char>,
    pub opus_data: Seq<u8>,
}

impl View for VoicePacket {
    type V = VoicePacketView;

    open spec fn view(&self) -> VoicePacketView {
        VoicePacketView {
            sequence: self.sequence,
            channel_id: self.channel_id@,
            opus_data: self.opus_data@,
        }
    }
}

/// The datagram that carries `p`.
pub open spec fn voice_datagram(p: VoicePacketView) -> Seq<u8> {
    wire::be_bytes(p.sequence as nat, 4) + seq![utf8::encode_utf8(p.channel_id).len() as u8] + utf8::encode_utf8(
        p.channel_id,
    ) + p.opus_data
}

/// Where the payload of a voice datagram starts.
pub open spec fn payload_start(data: Seq<u8>) -> int {
    5 + data[4] as int
}

/// Whether a datagram is framed as voice: a sequence number other than zero,
/// a complete channel id, and at least one byte of payload.
pub open spec fn is_voice_framed(data: Seq<u8>) -> bool {
    &&& data.len() >= 6
    &&& wire::be_value(data.subrange(0, 4)) != 0
    &&& data.len() >= payload_start(data) + 1
}

/// The voice packet that a datagram carries.
pub open spec fn parsed_voice(data: Seq<u8>) -> Option<VoicePacketView> {
    if is_voice_framed(data) && utf8::valid_utf8(data.subrange(5, payload_start(data))) {
        Some(
            VoicePacketView {
                sequence: wire::be_value(data.subrange(0, 4)) as u32,
                channel_id: utf8::decode_utf8(data.subrange(5, payload_start(data))),
                opus_data: data.subrange(payload_start(data), data.len() as int),
            },
        )
    } else {
        None
    }
}

/// The channel that a datagram is addressed to, whatever its sequence number.
pub open spec fn parsed_channel(data: Seq<u8>) -> Option<Seq<char>> {
    if data.len() >= 6 && data.len() >= payload_start(data) && utf8::valid_utf8(
        data.subrange(5, payload_start(data)),
    ) {
        Some(utf8::decode_utf8(data.subrange(5, payload_start(data))))
    } else {
        None
    }
}

/// A copy of part of a byte string.
pub(crate) fn copy_range(data: &[u8], from: usize, to: usize) -> (v: Vec<u8>)
    requires
        from <= to <= data@.len(),
    ensures
        v@ == data@.subrange(from as int, to as int),
{
    vstd::slice::slice_to_vec(vstd::slice::slice_subrange(data, from, to))
}

/// Appends bytes to a buffer.
pub(crate) fn push_bytes(buf: &mut Vec<u8>, bytes: &[u8])
    ensures
        final(buf)@ == old(buf)@ + bytes@,
{
    let mut tail: Vec<u8> = vstd::slice::slice_to_vec(bytes);
    buf.append(&mut tail);
}

impl VoicePacket {
    /// Serializes for UDP transmission. The length byte holds the length of
    /// the id modulo 256.
    pub fn encode(&self) -> (data: Vec<u8>)
        ensures
            data@ == voice_datagram(self@),
    {
        let id: &[u8] = self.channel_id.as_str().as_bytes();
        let mut data: Vec<u8> = Vec::new();
        push_be(&mut data, self.sequence as u64, 4);
        data.push(
            #[verifier::truncate]
            (id.len() as u8),
        );
        push_bytes(&mut data, id);
        push_bytes(&mut data, self.opus_data.as_slice());
        assert(data@ =~= voice_datagram(self@));
        data
    }

    /// Deserializes a UDP datagram.
    pub fn decode(data: &[u8]) -> (packet: Option<Self>)
        ensures
            packet is Some <==> parsed_voice(data@) is Some,
            packet matches Some(p) ==> parsed_voice(data@) == Some(p@),
    {
        let (sequence, _) = match VoicePacket::parse_voice_data(data) {
            Some(parts) => parts,
            None => return None,
        };
        let start: usize = 5 + data[4] as usize;
        match utf8_str(vstd::slice::slice_subrange(data, 5, start)) {
            Some(id) => Some(
                VoicePacket {
                    sequence,
                    channel_id: id.to_owned(),
                    opus_data: copy_range(data, start, data.len()),
                },
            ),
            None => None,
        }
    }

    /// The sequence number and the encrypted payload, without copying.
    pub fn parse_voice_data(data: &[u8]) -> (parts: Option<(u32, &[u8])>)
        ensures
            parts is Some <==> is_voice_framed(data@),
            parts matches Some((sequence, payload)) ==> {
                &&& sequence == wire::be_value(data@.subrange(0, 4))
                &&& payload@ == data@.subrange(payload_start(data@), data@.len() as int)
            },
    {
        if data.len() < 6 {
            return None;
        }
        let sequence: u64 = read_be(data, 0, 4);
        if sequence == 0 {
            return None;
        }
        let start: usize = 5 + data[4] as usize;
        if data.len() < start + 1 {
            return None;
        }
        proof {
            wire::lemma_be_value_bound(data@.subrange(0, 4));
            wire::lemma_pow256_values();
        }
        Some((sequence as u32, vstd::slice::slice_subrange(data, start, data.len())))
    }

    /// The channel id alone, without copying the payload.
    pub fn parse_channel_id(data: &[u8]) -> (id: Option<&str>)
        ensures
            id is Some <==> parsed_channel(data@) is Some,
            id matches Some(s) ==> parsed_channel(data@) == Some(s@),
    {
        if data.len() < 6 {
            return None;
        }
        let start: usize = 5 + data[4] as usize;
        if data.len() < start {
            return None;
        }
        utf8_str(vstd::slice::slice_subrange(data, 5, start))
    }
}

/// A voice packet is read back as it was sent. Its id must fit the length
/// byte, its sequence number must not be zero (that marks a hello), and it
/// must carry a payload.
pub proof fn law_voice_round_trip(p: VoicePacketView)
    requires
        p.sequence != 0,
        utf8::encode_utf8(p.channel_id).len() <= 255,
        p.opus_data.len() > 0,
    ensures
        parsed_voice(voice_datagram(p)) == Some(p),
        parsed_channel(voice_datagram(p)) == Some(p.channel_id),
{
    let data = voice_datagram(p);
    let id = utf8::encode_utf8(p.channel_id);
    wire::lemma_pow256_values();
    wire::lemma_be_bytes_len(p.sequence as nat, 4);
    wire::law_be_read_write(p.sequence as nat, 4);
    assert(data.subrange(0, 4) =~= wire::be_bytes(p.sequence as nat, 4));
    assert(data[4] == id.len());
    assert(data.subrange(5, payload_start(data)) =~= id);
    assert(data.subrange(payload_start(data), data.len() as int) =~= p.opus_data);
    utf8::encode_utf8_valid_utf8(p.channel_id);
    utf8::encode_utf8_decode_utf8(p.channel_id);
}

/// A datagram that is read as voice is the one that its packet is written as.
pub proof fn law_voice_write_read(data: Seq<u8>)
    requires
        parsed_voice(data) is Some,
    ensures
        voice_datagram(parsed_voice(data)->0) == data,
{
    let p = parsed_voice(data)->0;
    let head = data.subrange(0, 4);
    let start = payload_start(data);
    wire::lemma_be_value_bound(head);
    wire::lemma_pow256_values();
    wire::law_be_write_read(head);
    utf8::decode_utf8_encode_utf8(data.subrange(5, start));
    assert(voice_datagram(p) =~= data);
}

/// No datagram is both a hello and a voice packet.
pub proof fn law_hello_is_not_voice(data: Seq<u8>)
    requires
        hello_token(data) is Some,
    ensures
        parsed_voice(data) is None,
{
}

// ---------------------------------------------------------------------------
// TCP framing
// ---------------------------------------------------------------------------

/// Why a frame was rejected.
#[derive(Debug, Clone, Copy, PartialEq, Eq, Structural)]
pub enum FrameError {
    /// The announced length, in bytes, is over the limit.
    TooLarge(usize),
}

/// The frame that carries `payload`: the low 32 bits of its length, then the
/// payload itself.
pub open spec fn tcp_frame(payload: Seq<u8>) -> Seq<u8> {
    wire::be_bytes(payload.len(), 4) + payload
}

/// The payload length that the first four bytes announce.
pub open spec fn announced_len(buf: Seq<u8>) -> nat {
    wire::be_value(buf.subrange(0, 4))
}

/// The first frame of a buffer is over the limit.
pub open spec fn head_too_large(buf: Seq<u8>) -> bool {
    buf.len() >= 4 && announced_len(buf) > config::MAX_FRAME_SIZE
}

/// The first frame of a buffer is complete and within the limit.
pub open spec fn head_complete(buf: Seq<u8>) -> bool {
    buf.len() >= 4 && announced_len(buf) <= config::MAX_FRAME_SIZE && buf.len() >= 4
        + announced_len(buf)
}

/// The payload of the first frame.
pub open spec fn head_payload(buf: Seq<u8>) -> Seq<u8> {
    buf.subrange(4, 4 + announced_len(buf) as int)
}

/// What follows the first frame.
pub open spec fn after_head(buf: Seq<u8>) -> Seq<u8> {
    buf.subrange(4 + announced_len(buf) as int, buf.len() as int)
}

/// The payloads of all complete frames at the front of a buffer.
pub open spec fn complete_frames(buf: Seq<u8>) -> Seq<Seq<u8>>
    decreases buf.len(),
{
    if head_complete(buf) {
        seq![head_payload(buf)] + complete_frames(after_head(buf))
    } else {
        Seq::empty()
    }
}

/// What follows the complete frames at the front of a buffer.
pub open spec fn after_frames(buf: Seq<u8>) -> Seq<u8>
    decreases buf.len(),
{
    if head_complete(buf) {
        after_frames(after_head(buf))
    } else {
        buf
    }
}

/// The contents of a list of byte vectors.
pub open spec fn payloads(frames: Seq<Vec<u8>>) -> Seq<Seq<u8>> {
    frames.map_values(|f: Vec<u8>| f@)
}

/// Frames a serialized message: a 32-bit length and the payload.
pub fn encode_tcp_frame(payload: &[u8]) -> (frame: Vec<u8>)
    ensures
        frame@ == tcp_frame(payload@),
{
    let mut frame: Vec<u8> = Vec::new();
    push_be(&mut frame, payload.len() as u64, 4);
    push_bytes(&mut frame, payload);
    assert(frame@ =~= tcp_frame(payload@));
    frame
}

/// Takes the first frame of a buffer: its payload and the number of bytes
/// that it spans. Nothing comes back while the frame is incomplete.
pub fn try_decode_frame(buf: &[u8]) -> (frame: Result<Option<(Vec<u8>, usize)>, FrameError>)
    ensures
        match frame {
            Err(FrameError::TooLarge(len)) => head_too_large(buf@) && len == announced_len(buf@),
            Ok(None) => !head_too_large(buf@) && !head_complete(buf@),
            Ok(Some((payload, consumed))) => {
                &&& head_complete(buf@)
                &&& payload@ == head_payload(buf@)
                &&& consumed == 4 + announced_len(buf@)
            },
        },
{
    if buf.len() < 4 {
        return Ok(None);
    }
    let len64: u64 = read_be(buf, 0, 4);
    proof {
        wire::lemma_be_value_bound(buf@.subrange(0, 4));
        wire::lemma_pow256_values();
    }
    let len: usize = len64 as usize;
    if len > config::MAX_FRAME_SIZE {
        return Err(FrameError::TooLarge(len));
    }
    let total: usize = 4 + len;
    if buf.len() < total {
        return Ok(None);
    }
    Ok(Some((copy_range(buf, 4, total), total)))
}

/// `bytes::BytesMut`, the growable buffer that input is gathered in.
#[verifier::external_type_specification]
#[verifier::external_body]
pub struct ExBytesMut(bytes::BytesMut);

/// The unread bytes of a buffer.
pub uninterp spec fn buffered(buf: &BytesMut) -> Seq<u8>;

/// `BytesMut::as_ref`: a view of the unread bytes.
#[verifier::external_body]
pub(crate) fn buffer_bytes(buf: &BytesMut) -> (data: &[u8])
    ensures
        data@ == buffered(buf),
{
    buf.as_ref()
}

/// `BytesMut::new`: an empty buffer.
#[verifier::external_body]
pub(crate) fn buffer_new() -> (buf: BytesMut)
    ensures
        buffered(&buf) == Seq::<u8>::empty(),
{
    BytesMut::new()
}

/// `BytesMut::clear`: drops all bytes.
#[verifier::external_body]
pub(crate) fn buffer_clear(buf: &mut BytesMut)
    ensures
        buffered(final(buf)) == Seq::<u8>::empty(),
{
    buf.clear()
}

/// `BytesMut::extend_from_slice`: appends bytes at the end.
#[verifier::external_body]
pub(crate) fn buffer_extend(buf: &mut BytesMut, data: &[u8])
    ensures
        buffered(final(buf)) == buffered(old(buf)) + data@,
{
    buf.extend_from_slice(data)
}

/// `Buf::advance` of `BytesMut`: drops the first `count` bytes. It panics
/// when there are fewer.
#[verifier::external_body]
pub(crate) fn buffer_advance(buf: &mut BytesMut, count: usize)
    requires
        count <= buffered(old(buf)).len(),
    ensures
        buffered(final(buf)) == buffered(old(buf)).subrange(
            count as int,
            buffered(old(buf)).len() as int,
        ),
{
    bytes::Buf::advance(buf, count)
}

/// Extracts all complete frames from the front of a buffer and drops the
/// bytes that they spanned. A frame over the limit is an error; the frames
/// before it are gone from the buffer then.
pub fn extract_frames(pending: &mut BytesMut) -> (frames: Result<Vec<Vec<u8>>, FrameError>)
    ensures
        buffered(final(pending)) == after_frames(buffered(old(pending))),
        match frames {
            Ok(f) => {
                &&& !head_too_large(buffered(final(pending)))
                &&& payloads(f@) == complete_frames(buffered(old(pending)))
            },
            Err(FrameError::TooLarge(len)) => {
                &&& head_too_large(buffered(final(pending)))
                &&& len == announced_len(buffered(final(pending)))
            },
        },
{
    let mut frames: Vec<Vec<u8>> = Vec::new();
    loop
        invariant
            after_frames(buffered(pending)) == after_frames(buffered(old(pending))),
            payloads(frames@) + complete_frames(buffered(pending)) == complete_frames(
                buffered(old(pending)),
            ),
        decreases buffered(pending).len(),
    {
        let ghost before = payloads(frames@);
        let ghost buf = buffered(pending);
        match try_decode_frame(buffer_bytes(pending)) {
            Ok(Some((payload, consumed))) => {
                frames.push(payload);
                buffer_advance(pending, consumed);
                proof {
                    assert(payloads(frames@) =~= before.push(head_payload(buf)));
                    assert(payloads(frames@) + complete_frames(buffered(pending)) =~= before
                        + complete_frames(buf));
                }
            },
            Ok(None) => {
                assert(payloads(frames@) + complete_frames(buffered(pending)) =~= payloads(
                    frames@,
                ));
                return Ok(frames);
            },
            Err(e) => {
                return Err(e);
            },
        }
    }
}

/// A frame is taken off the front of any input with the payload that was put
/// into it, and what follows it stays.
pub proof fn law_frame_round_trip(payload: Seq<u8>, rest: Seq<u8>)
    requires
        payload.len() <= config::MAX_FRAME_SIZE,
    ensures
        head_complete(tcp_frame(payload) + rest),
        head_payload(tcp_frame(payload) + rest) == payload,
        after_head(tcp_frame(payload) + rest) == rest,
{
    let buf = tcp_frame(payload) + rest;
    wire::lemma_pow256_values();
    wire::lemma_be_bytes_len(payload.len(), 4);
    wire::law_be_read_write(payload.len(), 4);
    assert(buf.subrange(0, 4) =~= wire::be_bytes(payload.len(), 4));
    assert(head_payload(buf) =~= payload);
    assert(after_head(buf) =~= rest);
}

/// The concatenation of the frames that carry `messages`.
pub open spec fn tcp_stream(messages: Seq<Seq<u8>>) -> Seq<u8>
    decreases messages.len(),
{
    if messages.len() == 0 {
        Seq::empty()
    } else {
        tcp_frame(messages[0]) + tcp_stream(messages.drop_first())
    }
}

/// Any number of frames, followed by an incomplete one, are extracted in
/// order, and the incomplete one stays in the buffer.
pub proof fn law_stream_round_trip(messages: Seq<Seq<u8>>, partial: Seq<u8>)
    requires
        forall|i: int|
            0 <= i < messages.len() ==> (#[trigger] messages[i]).len() <= config::MAX_FRAME_SIZE,
        !head_complete(partial),
    ensures
        complete_frames(tcp_stream(messages) + partial) == messages,
        after_frames(tcp_stream(messages) + partial) == partial,
    decreases messages.len(),
{
    if messages.len() == 0 {
        assert(tcp_stream(messages) + partial =~= partial);
        assert(complete_frames(partial) =~= messages);
    } else {
        let rest = messages.drop_first();
        let tail = tcp_stream(rest) + partial;
        law_stream_round_trip(rest, partial);
        law_frame_round_trip(messages[0], tail);
        assert(tcp_stream(messages) + partial =~= tcp_frame(messages[0]) + tail);
        assert(seq![messages[0]] + rest =~= messages);
    }
}

/// A hello is twelve bytes: four zeros, then the token with its most
/// significant byte first.
pub proof fn law_hello_layout(token: u64)
    ensures
        udp_hello(token).len() == 12,
        forall|i: int| 0 <= i < 4 ==> #[trigger] udp_hello(token)[i] == 0,
        udp_hello(token)[4] == token / 0x100_0000_0000_0000,
        udp_hello(token)[7] == token / 0x1_0000_0000 % 256,
        udp_hello(token)[8] == token / 0x100_0000 % 256,
        udp_hello(token)[11] == token % 256,
{
    wire::lemma_be_bytes_len(0, 4);
    wire::lemma_be_bytes_len(token as nat, 8);
    wire::law_big_endian(0);
    wire::law_upper_half_first(token as nat);
    wire::law_big_endian(token as nat);
    wire::law_big_endian(token as nat / 0x1_0000_0000);
}

/// A voice packet starts with its number, most significant byte first, the
/// length of its channel id and the id itself; what it carries comes last.
pub proof fn law_voice_layout(p: VoicePacketView)
    requires
        utf8::encode_utf8(p.channel_id).len() <= 255,
    ensures
        ({
            let data = voice_datagram(p);
            let id = utf8::encode_utf8(p.channel_id);
            &&& data.len() == 5 + id.len() + p.opus_data.len()
            &&& data[0] == p.sequence / 0x100_0000
            &&& data[1] == p.sequence / 0x1_0000 % 256
            &&& data[2] == p.sequence / 0x100 % 256
            &&& data[3] == p.sequence % 256
            &&& data[4] == id.len()
            &&& data.subrange(5, 5 + id.len() as int) == id
            &&& data.subrange(5 + id.len() as int, data.len() as int) == p.opus_data
        }),
{
    let data = voice_datagram(p);
    let id = utf8::encode_utf8(p.channel_id);
    wire::law_big_endian(p.sequence as nat);
    assert(data.subrange(5, 5 + id.len() as int) =~= id);
    assert(data.subrange(5 + id.len() as int, data.len() as int) =~= p.opus_data);
}

/// Voice packets are numbered one after the other, from 1 again after the
/// largest number, and never 0.
pub proof fn law_numbers_follow(seq: u32)
    ensures
        seq < u32::MAX ==> following(seq) == seq + 1,
        following(u32::MAX) == 1,
        following(seq) != 0,
{
}

/// A frame starts with the length of its payload, most significant byte
/// first, and holds the payload as it is.
pub proof fn law_frame_layout(payload: Seq<u8>)
    requires
        payload.len() < 0x1_0000_0000,
    ensures
        tcp_frame(payload).len() == 4 + payload.len(),
        tcp_frame(payload)[0] == payload.len() / 0x100_0000,
        tcp_frame(payload)[1] == payload.len() / 0x1_0000 % 256,
        tcp_frame(payload)[2] == payload.len() / 0x100 % 256,
        tcp_frame(payload)[3] == payload.len() % 256,
        tcp_frame(payload).subrange(4, tcp_frame(payload).len() as int) == payload,
{
    wire::law_big_endian(payload.len());
    assert(tcp_frame(payload).subrange(4, tcp_frame(payload).len() as int) =~= payload);
}

/// A frame over the limit is refused as soon as its length is known, and one
/// within it never is.
pub proof fn law_large_frame_is_refused(payload: Seq<u8>, rest: Seq<u8>)
    requires
        payload.len() < 0x1_0000_0000,
    ensures
        head_too_large(tcp_frame(payload) + rest) <==> payload.len() > config::MAX_FRAME_SIZE,
        announced_len(tcp_frame(payload) + rest) == payload.len(),
{
    let buf = tcp_frame(payload) + rest;
    wire::lemma_pow256_values();
    wire::lemma_be_bytes_len(payload.len(), 4);
    wire::law_be_read_write(payload.len(), 4);
    assert(buf.subrange(0, 4) =~= wire::be_bytes(payload.len(), 4));
}

/// Part of a frame is no frame: nothing is taken, and nothing is refused,
/// until all of it is there.
pub proof fn law_part_of_a_frame_waits(payload: Seq<u8>, n: int)
    requires
        payload.len() <= config::MAX_FRAME_SIZE,
        0 <= n < tcp_frame(payload).len(),
    ensures
        complete_frames(tcp_frame(payload).subrange(0, n)).len() == 0,
        after_frames(tcp_frame(payload).subrange(0, n)) == tcp_frame(payload).subrange(0, n),
        !head_too_large(tcp_frame(payload).subrange(0, n)),
{
    let part = tcp_frame(payload).subrange(0, n);
    wire::lemma_be_bytes_len(payload.len(), 4);
    if n >= 4 {
        wire::lemma_pow256_values();
        wire::law_be_read_write(payload.len(), 4);
        assert(part.subrange(0, 4) =~= wire::be_bytes(payload.len(), 4));
    }
}

/// It does not matter in how many pieces the input comes: what is taken out of
/// the first piece, and then of what was left with the second behind it, is
/// what would have been taken out of both at once.
pub proof fn law_pieces_do_not_matter(first: Seq<u8>, second: Seq<u8>)
    ensures
        complete_frames(first + second) == complete_frames(first) + complete_frames(
            after_frames(first) + second,
        ),
        after_frames(first + second) == after_frames(after_frames(first) + second),
    decreases first.len(),
{
    if head_complete(first) {
        let both = first + second;
        assert(both.subrange(0, 4) =~= first.subrange(0, 4));
        assert(head_complete(both));
        assert(head_payload(both) =~= head_payload(first));
        assert(after_head(both) =~= after_head(first) + second);
        law_pieces_do_not_matter(after_head(first), second);
        assert(complete_frames(both) =~= complete_frames(first) + complete_frames(
            after_frames(first) + second,
        ));
    } else {
        assert(complete_frames(first) + complete_frames(first + second) =~= complete_frames(
            first + second,
        ));
    }
}

} // verus!
