//! Encrypted voice: sealing frames into datagrams and opening them again.

use bytes::BytesMut;
use chacha20poly1305::aead::{AeadInPlace, KeyInit};
use vstd::prelude::*;
use vstd::utf8;

use crate::config;
use crate::protocol;
use crate::protocol::{
    buffer_clear, buffer_extend, copy_range, push_bytes,
};
use crate::random::random_nonce;
use crate::text::utf8_str;
use crate::wire;
use crate::wire::push_be;

verus! {

/// The longest plaintext that the cipher takes, in bytes.
pub const MAX_PLAINTEXT: u64 = 0x3F_FFFF_FF40;

/// What XChaCha20-Poly1305 makes of a plaintext: the ciphertext and the tag.
pub uninterp spec fn sealed(key: Seq<u8>, nonce: Seq<u8>, plain: Seq<u8>) -> Seq<u8>;

/// What XChaCha20-Poly1305 makes of a ciphertext and its tag: the plaintext,
/// if they are authentic.
pub uninterp spec fn unsealed(key: Seq<u8>, nonce: Seq<u8>, data: Seq<u8>) -> Option<Seq<u8>>;

/// `XChaCha20Poly1305::encrypt_in_place_detached` under a 32-byte key and
/// without associated data, with the tag appended. The ciphertext is as long
/// as the plaintext and the tag is 16 bytes; opening the result under the same
/// key and nonce gives back the plaintext. Longer plaintexts exhaust the key
/// stream.
#[verifier::external_body]
fn seal(key: &Vec<u8>, nonce: &Vec<u8>, plain: &Vec<u8>) -> (data: Vec<u8>)
    requires
        key@.len() == config::VOICE_KEY_LEN,
        nonce@.len() == config::XCHACHA20_NONCE_SIZE,
        plain@.len() <= MAX_PLAINTEXT,
    ensures
        data@ == sealed(key@, nonce@, plain@),
        data@.len() == plain@.len() + config::POLY1305_TAG_SIZE,
        unsealed(key@, nonce@, data@) == Some(plain@),
{
    let cipher = chacha20poly1305::XChaCha20Poly1305::new_from_slice(key).expect("key length");
    let nonce = chacha20poly1305::XNonce::from_slice(nonce);
    let mut data = plain.clone();
    let tag = cipher.encrypt_in_place_detached(nonce, b"", &mut data).expect("length");
    data.extend_from_slice(tag.as_slice());
    data
}

/// `XChaCha20Poly1305::decrypt_in_place` under a 32-byte key and without
/// associated data: the plaintext, 16 bytes shorter than the input, if the
/// tag at the end of the input is authentic. Longer inputs exhaust the key
/// stream.
#[verifier::external_body]
fn unseal(key: &Vec<u8>, nonce: &[u8], data: &[u8]) -> (plain: Option<Vec<u8>>)
    requires
        key@.len() == config::VOICE_KEY_LEN,
        nonce@.len() == config::XCHACHA20_NONCE_SIZE,
        data@.len() <= MAX_PLAINTEXT,
    ensures
        plain is Some <==> unsealed(key@, nonce@, data@) is Some,
        plain matches Some(p) ==> unsealed(key@, nonce@, data@) == Some(p@) && p@.len()
            + config::POLY1305_TAG_SIZE == data@.len(),
{
    let cipher = chacha20poly1305::XChaCha20Poly1305::new_from_slice(key).expect("key length");
    let nonce = chacha20poly1305::XNonce::from_slice(nonce);
    let mut plain = data.to_vec();
    cipher.decrypt_in_place(nonce, b"", &mut plain).ok().map(|_| plain)
}

/// A voice key of the right length.
pub struct VoiceCipher {
    key: Vec<u8>,
}

impl View for VoiceCipher {
    type V = Seq<u8>;

    closed spec fn view(&self) -> Seq<u8> {
        self.key@
    }
}

/// A frame with its sender's name in front: the length of the name, modulo
/// 256, the name, and the frame.
pub open spec fn named_frame(name: Seq<u8>, opus: Seq<u8>) -> Seq<u8> {
    seq![name.len() as u8] + name + opus
}

/// The datagram that carries a frame: header, nonce, and the sealed frame.
pub open spec fn voice_packet(
    key: Seq<u8>,
    nonce: Seq<u8>,
    sequence: u32,
    channel_id: Seq<char>,
    name: Seq<u8>,
    opus: Seq<u8>,
) -> Seq<u8> {
    protocol::voice_datagram(
        protocol::VoicePacketView {
            sequence,
            channel_id,
            opus_data: nonce + sealed(key, nonce, named_frame(name, opus)),
        },
    )
}

/// What a payload of nonce and sealed frame decrypts to.
pub open spec fn decrypted(key: Seq<u8>, payload: Seq<u8>) -> Option<Seq<u8>> {
    if payload.len() < config::XCHACHA20_NONCE_SIZE + config::POLY1305_TAG_SIZE {
        None
    } else {
        unsealed(
            key,
            payload.subrange(0, config::XCHACHA20_NONCE_SIZE as int),
            payload.subrange(config::XCHACHA20_NONCE_SIZE as int, payload.len() as int),
        )
    }
}

/// The sender's name in a decrypted frame, and where the frame starts.
pub open spec fn frame_name(buf: Seq<u8>) -> Option<(Seq<char>, int)> {
    if buf.len() > 0 && buf.len() >= 1 + buf[0] && utf8::valid_utf8(
        buf.subrange(1, 1 + buf[0] as int),
    ) {
        Some((utf8::decode_utf8(buf.subrange(1, 1 + buf[0] as int)), 1 + buf[0] as int))
    } else {
        None
    }
}

/// What a receiver learns from a datagram: sequence number, sender and frame.
pub open spec fn heard(key: Seq<u8>, data: Seq<u8>) -> Option<(u32, Seq<char>, Seq<u8>)> {
    if protocol::is_voice_framed(data) {
        let payload = data.subrange(protocol::payload_start(data), data.len() as int);
        match decrypted(key, payload) {
            Some(buf) => match frame_name(buf) {
                Some((name, start)) => Some(
                    (
                        wire::be_value(data.subrange(0, 4)) as u32,
                        name,
                        buf.subrange(start, buf.len() as int),
                    ),
                ),
                None => None,
            },
            None => None,
        }
    } else {
        None
    }
}

/// What is sealed is heard: a packet with a sequence number other than zero,
/// a channel id that fits its length byte, and a name that fits its own,
/// arrives with the name and the frame that went in.
proof fn lemma_packet_is_heard(
    key: Seq<u8>,
    nonce: Seq<u8>,
    sequence: u32,
    channel_id: Seq<char>,
    name: Seq<char>,
    opus: Seq<u8>,
)
    requires
        nonce.len() == config::XCHACHA20_NONCE_SIZE,
        sequence != 0,
        utf8::encode_utf8(channel_id).len() <= 255,
        utf8::encode_utf8(name).len() <= 255,
        ({
            let plain = named_frame(utf8::encode_utf8(name), opus);
            &&& unsealed(key, nonce, sealed(key, nonce, plain)) == Some(plain)
            &&& sealed(key, nonce, plain).len() == plain.len() + config::POLY1305_TAG_SIZE
        }),
    ensures
        heard(
            key,
            voice_packet(key, nonce, sequence, channel_id, utf8::encode_utf8(name), opus),
        ) == Some((sequence, name, opus)),
{
    let n = utf8::encode_utf8(name);
    let plain = named_frame(n, opus);
    let body = nonce + sealed(key, nonce, plain);
    let p = protocol::VoicePacketView { sequence, channel_id, opus_data: body };
    let data = protocol::voice_datagram(p);
    protocol::law_voice_round_trip(p);
    assert(protocol::is_voice_framed(data));
    let payload = data.subrange(protocol::payload_start(data), data.len() as int);
    assert(payload == body);
    assert(payload.subrange(0, 24) =~= nonce);
    assert(payload.subrange(24, payload.len() as int) =~= sealed(key, nonce, plain));
    assert(plain[0] == n.len());
    assert(plain.subrange(1, 1 + plain[0] as int) =~= n);
    assert(plain.subrange(1 + plain[0] as int, plain.len() as int) =~= opus);
    utf8::encode_utf8_valid_utf8(name);
    utf8::encode_utf8_decode_utf8(name);
}

/// The first bytes of a name: as many as fit its length byte.
pub open spec fn clipped_name(name: Seq<u8>) -> Seq<u8> {
    if name.len() <= 255 {
        name
    } else {
        name.subrange(0, 255)
    }
}

/// The bytes of a sender's name as packets carry them.
pub fn sender_name_bytes(name: &str) -> (bytes: Vec<u8>)
    ensures
        bytes@ == clipped_name(utf8::encode_utf8(name@)),
{
    let all = name.as_bytes();
    let n: usize = if all.len() <= 255 {
        all.len()
    } else {
        255
    };
    let bytes = copy_range(all, 0, n);
    assert(all@.subrange(0, all@.len() as int) =~= all@);
    bytes
}

impl VoiceCipher {
    /// Every voice key has the same length.
    #[verifier::type_invariant]
    spec fn inv(self) -> bool {
        self.key@.len() == config::VOICE_KEY_LEN
    }

    /// A cipher for a key of the right length.
    pub fn new(key: Vec<u8>) -> (c: Option<Self>)
        ensures
            c is Some <==> key@.len() == config::VOICE_KEY_LEN,
            c matches Some(cipher) ==> cipher@ == key@,
    {
        if key.len() == config::VOICE_KEY_LEN {
            Some(VoiceCipher { key })
        } else {
            None
        }
    }

    /// Builds the packet of a frame under the given nonce.
    pub fn build_packet_with(
        &self,
        packet_buf: &mut BytesMut,
        nonce: Vec<u8>,
        sequence: u32,
        channel_id: &str,
        name_bytes: &[u8],
        opus_data: &[u8],
    )
        requires
            nonce@.len() == config::XCHACHA20_NONCE_SIZE,
            name_bytes@.len() + opus_data@.len() < MAX_PLAINTEXT,
        ensures
            protocol::buffered(final(packet_buf)) == voice_packet(
                self@,
                nonce@,
                sequence,
                channel_id@,
                name_bytes@,
                opus_data@,
            ),
            forall|name: Seq<char>|
                sequence != 0 && utf8::encode_utf8(channel_id@).len() <= 255
                    && name_bytes@.len() <= 255 && name_bytes@ == #[trigger] utf8::encode_utf8(name)
                    ==> heard(self@, protocol::buffered(final(packet_buf))) == Some(
                    (sequence, name, opus_data@),
                ),
    {
        proof {
            use_type_invariant(self);
        }
        let mut header: Vec<u8> = Vec::new();
        push_be(&mut header, sequence as u64, 4);
        let id: &[u8] = channel_id.as_bytes();
        header.push(
            #[verifier::truncate]
            (id.len() as u8),
        );
        push_bytes(&mut header, id);
        let mut plain: Vec<u8> = Vec::new();
        plain.push(
            #[verifier::truncate]
            (name_bytes.len() as u8),
        );
        push_bytes(&mut plain, name_bytes);
        push_bytes(&mut plain, opus_data);
        assert(plain@ =~= named_frame(name_bytes@, opus_data@));
        let data = seal(&self.key, &nonce, &plain);
        buffer_clear(packet_buf);
        buffer_extend(packet_buf, header.as_slice());
        buffer_extend(packet_buf, nonce.as_slice());
        buffer_extend(packet_buf, data.as_slice());
        proof {
            assert(protocol::buffered(packet_buf) =~= voice_packet(
                self@,
                nonce@,
                sequence,
                channel_id@,
                name_bytes@,
                opus_data@,
            ));
            assert forall|name: Seq<char>|
                sequence != 0 && utf8::encode_utf8(channel_id@).len() <= 255
                    && name_bytes@.len() <= 255 && name_bytes@ == #[trigger] utf8::encode_utf8(
                    name,
                ) implies heard(self@, protocol::buffered(packet_buf)) == Some(
                (sequence, name, opus_data@),
            ) by {
                lemma_packet_is_heard(
                    self@,
                    nonce@,
                    sequence,
                    channel_id@,
                    name,
                    opus_data@,
                );
            }
        }
    }

    /// Builds the packet of a frame under a random nonce: header, nonce, and
    /// the sealed name and frame. The receiver hears what went in.
    pub fn build_packet(
        &self,
        packet_buf: &mut BytesMut,
        sequence: u32,
        channel_id: &str,
        name_bytes: &[u8],
        opus_data: &[u8],
    )
        requires
            name_bytes@.len() + opus_data@.len() < MAX_PLAINTEXT,
        ensures
            exists|nonce: Seq<u8>|
                nonce.len() == config::XCHACHA20_NONCE_SIZE && protocol::buffered(
                    final(packet_buf),
                ) == #[trigger] voice_packet(
                    self@,
                    nonce,
                    sequence,
                    channel_id@,
                    name_bytes@,
                    opus_data@,
                ),
            forall|name: Seq<char>|
                sequence != 0 && utf8::encode_utf8(channel_id@).len() <= 255
                    && name_bytes@.len() <= 255 && name_bytes@ == #[trigger] utf8::encode_utf8(name)
                    ==> heard(self@, protocol::buffered(final(packet_buf))) == Some(
                    (sequence, name, opus_data@),
                ),
    {
        let nonce = random_nonce();
        self.build_packet_with(packet_buf, nonce, sequence, channel_id, name_bytes, opus_data);
    }

    /// Decrypts a payload of nonce and sealed frame into `out`, which stays as
    /// it is when the payload is not authentic.
    pub fn decrypt_packet(&self, encrypted: &[u8], out: &mut Vec<u8>) -> (ok: bool)
        requires
            encrypted@.len() <= MAX_PLAINTEXT,
        ensures
            ok == (decrypted(self@, encrypted@) is Some),
            final(out)@ == match decrypted(self@, encrypted@) {
                Some(plain) => plain,
                None => old(out)@,
            },
    {
        proof {
            use_type_invariant(self);
        }
        let start: usize = config::XCHACHA20_NONCE_SIZE;
        if encrypted.len() < start + config::POLY1305_TAG_SIZE {
            return false;
        }
        let nonce = vstd::slice::slice_subrange(encrypted, 0, start);
        let data = vstd::slice::slice_subrange(encrypted, start, encrypted.len());
        match unseal(&self.key, nonce, data) {
            Some(plain) => {
                *out = plain;
                true
            },
            None => false,
        }
    }
}

/// The sender's name in a decrypted frame, and where the frame starts.
pub fn parse_packet_name(buf: &[u8]) -> (r: Option<(&str, usize)>)
    ensures
        r is Some <==> frame_name(buf@) is Some,
        r matches Some((name, start)) ==> frame_name(buf@) == Some((name@, start as int)),
{
    if buf.len() == 0 {
        return None;
    }
    let end: usize = 1 + buf[0] as usize;
    if buf.len() < end {
        return None;
    }
    match utf8_str(vstd::slice::slice_subrange(buf, 1, end)) {
        Some(name) => Some((name, end)),
        None => None,
    }
}

/// A frame starts with the length of its sender's name and the name, and ends
/// with the sound as it is.
pub proof fn law_frame_layout(name: Seq<u8>, opus: Seq<u8>)
    requires
        name.len() <= 255,
    ensures
        named_frame(name, opus).len() == 1 + name.len() + opus.len(),
        named_frame(name, opus)[0] == name.len(),
        named_frame(name, opus).subrange(1, 1 + name.len() as int) == name,
        named_frame(name, opus).subrange(
            1 + name.len() as int,
            named_frame(name, opus).len() as int,
        ) == opus,
{
    let f = named_frame(name, opus);
    assert(f.subrange(1, 1 + name.len() as int) =~= name);
    assert(f.subrange(1 + name.len() as int, f.len() as int) =~= opus);
}

/// A packet shows its number and its channel to everybody, then the nonce; the
/// name and the sound are sealed under the key.
pub proof fn law_packet_layout(
    key: Seq<u8>,
    nonce: Seq<u8>,
    sequence: u32,
    channel_id: Seq<char>,
    name: Seq<u8>,
    opus: Seq<u8>,
)
    requires
        nonce.len() == config::XCHACHA20_NONCE_SIZE,
        utf8::encode_utf8(channel_id).len() <= 255,
    ensures
        ({
            let data = voice_packet(key, nonce, sequence, channel_id, name, opus);
            let start = 5 + utf8::encode_utf8(channel_id).len() as int;
            &&& data.subrange(start, start + 24) == nonce
            &&& data.subrange(start + 24, data.len() as int) == sealed(
                key,
                nonce,
                named_frame(name, opus),
            )
            &&& data.subrange(5, start) == utf8::encode_utf8(channel_id)
        }),
{
    let body = nonce + sealed(key, nonce, named_frame(name, opus));
    let p = protocol::VoicePacketView { sequence, channel_id, opus_data: body };
    protocol::law_voice_layout(p);
    let data = protocol::voice_datagram(p);
    let start = 5 + utf8::encode_utf8(channel_id).len() as int;
    let rest = data.subrange(start, data.len() as int);
    assert(rest == body);
    assert(data.subrange(start, start + 24) =~= rest.subrange(0, 24));
    assert(body.subrange(0, 24) =~= nonce);
    assert(data.subrange(start + 24, data.len() as int) =~= rest.subrange(24, rest.len() as int));
    assert(body.subrange(24, body.len() as int) =~= sealed(key, nonce, named_frame(name, opus)));
}

/// A name that fits its length byte goes out as it is, and a longer one without
/// its end.
pub proof fn law_name_is_clipped(name: Seq<u8>, i: int)
    requires
        0 <= i < clipped_name(name).len(),
    ensures
        name.len() <= 255 ==> clipped_name(name) == name,
        name.len() > 255 ==> clipped_name(name).len() == 255,
        clipped_name(name)[i] == name[i],
{
}

} // verus!
