//! Tunable parameters, grouped by subsystem.

use vstd::prelude::*;

verus! {

// Network

/// Default TCP port of the control channel.
pub const TCP_PORT: u16 = 7100;
/// Default UDP port of the voice relay.
pub const UDP_PORT: u16 = 7101;
/// Port of the local web interface.
pub const WEB_PORT: u16 = 17300;
/// Version of the wire protocol; it changes only when the wire format breaks.
pub const PROTOCOL_VERSION: u16 = 3;
/// Largest TCP frame payload, in bytes. Larger frames are rejected.
pub const MAX_FRAME_SIZE: usize = 65536;
/// Size of the TCP read buffer, in bytes.
pub const TCP_READ_BUF: usize = 8192;
/// Largest amount of undecoded input kept per connection, in bytes.
pub const MAX_PENDING_BUF: usize = 131072;
/// Largest UDP packet, in bytes.
pub const MAX_UDP_PACKET: usize = 1500;
/// Number of UDP hellos sent when voice connects.
pub const UDP_HELLO_RETRIES: u32 = 3;
/// Interval between UDP hellos, in milliseconds.
pub const UDP_HELLO_INTERVAL_MS: u64 = 200;
/// First delay before an unacknowledged hello is repeated, in milliseconds.
pub const UDP_REHELLO_BASE_MS: u64 = 1000;
/// Longest delay between repeated hellos, in milliseconds.
pub const UDP_REHELLO_MAX_MS: u64 = 5000;
/// Interval between hellos of an idle client, in seconds.
pub const UDP_KEEPALIVE_INTERVAL_SECS: u64 = 20;
/// Lifetime of a UDP token that no live session holds, in seconds.
pub const UDP_TOKEN_TTL_SECS: u64 = 30;
/// Interval between TCP heartbeat pings, in seconds.
pub const HEARTBEAT_INTERVAL_SECS: u64 = 10;

// Chat

/// Longest chat message, in bytes.
pub const MAX_CHAT_LEN: usize = 2048;
/// Longest display name, in bytes.
pub const MAX_NAME_LEN: usize = 32;
/// Most messages kept in the terminal history.
pub const MAX_MESSAGE_HISTORY: usize = 500;

// Channels

/// Longest name of a public channel, in bytes.
pub const MAX_CHANNEL_NAME_LEN: usize = 32;
/// Length of a generated channel id.
pub const CHANNEL_ID_LEN: usize = 5;

// Audio

/// Samples of one Opus frame: 20 ms at 48 kHz, mono.
pub const FRAME_SIZE: usize = 960;
/// Audio sample rate, in hertz.
pub const SAMPLE_RATE: u32 = 48000;
/// Number of audio channels.
pub const AUDIO_CHANNELS: u16 = 1;
/// Largest encoded Opus packet, in bytes.
pub const MAX_OPUS_PACKET: usize = 4000;
/// Most samples kept for playback: five frames, about 100 ms.
pub const MAX_PLAYBACK_BUF: usize = 4800;
/// Smallest capacity of the jitter buffer, in packets.
pub const JITTER_BUF_MIN: usize = 2;
/// Largest capacity of the jitter buffer, in packets.
pub const JITTER_BUF_MAX: usize = 15;
/// Capacity of the jitter buffer before it adapts.
pub const JITTER_BUF_INITIAL: usize = 4;
/// Number of packets between two adaptations of the jitter buffer.
pub const JITTER_ADAPT_INTERVAL: u32 = 50;

/// Consecutive packets ahead of the jitter buffer after which it follows them.
pub const JITTER_RESYNC_AFTER: u32 = 5;
/// Most senders that are received at a time.
pub const MAX_SENDER_STREAMS: usize = 64;
/// How long a silent sender is remembered, in seconds.
pub const SENDER_STREAM_TTL_SECS: u64 = 30;

// Voice activity

/// Level of voice detection, in thousandths of full amplitude, until the user
/// sets one.
pub const DEFAULT_VAD_LEVEL: u32 = 15;
/// Frames still sent after the last loud one (200 ms).
pub const VAD_HANGOVER_FRAMES: u32 = 10;
/// Quiet frames that are sent before the first loud one (100 ms).
pub const VAD_PREROLL_FRAMES: usize = 5;

// Adaptive quality

/// Packets per loss measurement (about three seconds).
pub const STATS_WINDOW_PACKETS: u32 = 150;
/// Loss, in percent, from which the medium tier is used.
pub const LOSS_THRESH_MEDIUM: u8 = 5;
/// Loss, in percent, from which the low tier is used.
pub const LOSS_THRESH_LOW: u8 = 15;
/// Loss, in percent, from which the minimum tier is used.
pub const LOSS_THRESH_MINIMUM: u8 = 30;
/// Bitrate of the high tier, in bits per second.
pub const BITRATE_HIGH: i32 = 64_000;
/// Bitrate of the medium tier, in bits per second.
pub const BITRATE_MEDIUM: i32 = 24_000;
/// Bitrate of the low tier, in bits per second.
pub const BITRATE_LOW: i32 = 16_000;
/// Bitrate of the minimum tier, in bits per second.
pub const BITRATE_MINIMUM: i32 = 10_000;
/// Encoder complexity of the high tier.
pub const COMPLEXITY_HIGH: u8 = 10;
/// Encoder complexity of the medium tier.
pub const COMPLEXITY_MEDIUM: u8 = 7;
/// Encoder complexity of the low tier.
pub const COMPLEXITY_LOW: u8 = 5;
/// Encoder complexity of the minimum tier.
pub const COMPLEXITY_MINIMUM: u8 = 3;

// Crypto

/// Length of a channel's voice key, in bytes.
pub const VOICE_KEY_LEN: usize = 32;
/// Nonce of XChaCha20-Poly1305, in bytes.
pub const XCHACHA20_NONCE_SIZE: usize = 24;
/// Authentication tag of Poly1305, in bytes.
pub const POLY1305_TAG_SIZE: usize = 16;

// Server

/// Commands per second and connection, in thousandths.
pub const RATE_LIMIT_CMD_PER_SEC: u64 = 10_000;
/// Commands that a connection may send at once, in thousandths.
pub const RATE_LIMIT_CMD_BURST: u64 = 20_000;
/// Channels per second that a connection may create, in thousandths.
pub const RATE_LIMIT_CREATE_PER_SEC: u64 = 100;
/// Channels that a connection may create at once, in thousandths.
pub const RATE_LIMIT_CREATE_BURST: u64 = 3_000;
/// Commands per second and source address, in thousandths.
pub const RATE_LIMIT_IP_CMD_PER_SEC: u64 = 50_000;
/// Commands that a source address may send at once, in thousandths.
pub const RATE_LIMIT_IP_CMD_BURST: u64 = 100_000;
/// How long the budget of an address without connections is kept, in seconds.
pub const IP_LIMITER_IDLE_TTL_SECS: u64 = 300;
/// Interval between maintenance sweeps, in seconds.
pub const MAINTENANCE_INTERVAL_SECS: u64 = 30;

/// Shortest time between two attempts to restart voice, in milliseconds.
pub const VOICE_RESTART_MIN_INTERVAL_MS: u64 = 2_000;

/// Time between two looks at the audio devices, in milliseconds.
pub const DEVICE_POLL_INTERVAL_MS: u64 = 2_000;

/// Length of a sound check, in seconds.
pub const ECHO_TEST_DURATION_SECS: u64 = 5;

/// Prefix of the ids of public channels.
pub const PUBLIC_CHANNEL_PREFIX: &'static str = "pub-";

/// Prefix of the ids of the channels of sound checks.
pub const ECHO_CHANNEL_PREFIX: &'static str = "echo-";

/// Loudest volume of a single peer, in percent.
pub const PEER_VOL_MAX_PCT: u32 = 200;

} // verus!
