//! The server's state.

use tc::addr::{Addr, Ip};
use tc::config;
use tc::server_model::Limits;
use tc::state::ServerState;

const MS: u64 = 1_000_000;
const SEC: u64 = 1_000_000_000;

fn unlimited() -> Limits {
    Limits { max_channels: 0, max_clients: 0, rate_limit_multiplier: 10_000 }
}

fn addr(port: u16) -> Addr {
    Addr::V4 { ip: 0x7F00_0001, port }
}

#[test]
fn register_client_assigns_unique_names() {
    let mut state = ServerState::new(unlimited());
    let n1 = state.register_client(addr(1)).unwrap();
    let n2 = state.register_client(addr(2)).unwrap();
    assert_ne!(n1, n2);
    assert!(n1.starts_with("user-"));
}

#[test]
fn register_client_respects_max_clients() {
    let limits = Limits { max_clients: 1, ..unlimited() };
    let mut state = ServerState::new(limits);
    assert!(state.register_client(addr(1)).is_ok());
    assert!(state.register_client(addr(2)).is_err());
}

#[test]
fn remove_client_returns_name_and_channel() {
    let mut state = ServerState::new(unlimited());
    state.register_client(addr(1)).unwrap();
    let ch = state.create_channel(None, 0).unwrap();
    state.join_channel(&addr(1), &ch, 0).unwrap();

    let (name, channel) = state.remove_client(&addr(1)).unwrap();
    assert!(name.starts_with("user-"));
    assert_eq!(channel.as_deref(), Some(ch.as_str()));
}

#[test]
fn remove_nonexistent_client_returns_none() {
    let mut state = ServerState::new(unlimited());
    assert!(state.remove_client(&addr(99)).is_none());
}

#[test]
fn create_private_channel() {
    let mut state = ServerState::new(unlimited());
    let id = state.create_channel(None, 0).unwrap();
    assert!(!id.starts_with("pub-"));
    assert_eq!(id.len(), config::CHANNEL_ID_LEN);
}

#[test]
fn create_public_channel() {
    let mut state = ServerState::new(unlimited());
    let id = state.create_channel(Some("lobby"), 0).unwrap();
    assert_eq!(id, "pub-lobby");
}

#[test]
fn create_duplicate_public_channel_fails() {
    let mut state = ServerState::new(unlimited());
    state.create_channel(Some("dup"), 0).unwrap();
    assert!(state.create_channel(Some("dup"), 0).is_err());
}

#[test]
fn create_channel_respects_max_channels() {
    let limits = Limits { max_channels: 1, ..unlimited() };
    let mut state = ServerState::new(limits);
    assert!(state.create_channel(None, 0).is_ok());
    assert!(state.create_channel(None, 0).is_err());
}

#[test]
fn join_channel_returns_participants_token_key() {
    let mut state = ServerState::new(unlimited());
    state.register_client(addr(1)).unwrap();
    let ch = state.create_channel(None, 0).unwrap();
    let (participants, token, key) = state.join_channel(&addr(1), &ch, 0).unwrap();
    assert_eq!(participants.len(), 1);
    assert_ne!(token, 0);
    assert_eq!(key.len(), 32);
}

#[test]
fn join_nonexistent_channel_fails() {
    let mut state = ServerState::new(unlimited());
    state.register_client(addr(1)).unwrap();
    assert!(state.join_channel(&addr(1), &"nope".into(), 0).is_err());
}

#[test]
fn join_while_already_in_channel_fails() {
    let mut state = ServerState::new(unlimited());
    state.register_client(addr(1)).unwrap();
    let ch = state.create_channel(None, 0).unwrap();
    state.join_channel(&addr(1), &ch, 0).unwrap();
    assert!(state.join_channel(&addr(1), &ch, 0).is_err());
}

#[test]
fn leave_channel_succeeds() {
    let mut state = ServerState::new(unlimited());
    state.register_client(addr(1)).unwrap();
    let ch = state.create_channel(None, 0).unwrap();
    state.join_channel(&addr(1), &ch, 0).unwrap();

    let (name, channel_id) = state.leave_channel(&addr(1)).unwrap();
    assert!(name.starts_with("user-"));
    assert_eq!(channel_id, ch);
}

#[test]
fn leave_when_not_in_channel_returns_none() {
    let mut state = ServerState::new(unlimited());
    state.register_client(addr(1)).unwrap();
    assert!(state.leave_channel(&addr(1)).is_none());
}

#[test]
fn register_udp_by_valid_token() {
    let mut state = ServerState::new(unlimited());
    state.register_client(addr(1)).unwrap();
    let ch = state.create_channel(None, 0).unwrap();
    let (_, token, _) = state.join_channel(&addr(1), &ch, 0).unwrap();

    let udp_addr = addr(5000);
    assert!(state.register_udp_by_token(token, udp_addr, 0));

    let mut peers = Vec::new();
    state.fill_channel_peers(&ch, &addr(99), &mut peers);
    assert!(peers.contains(&udp_addr));
}

#[test]
fn register_udp_by_invalid_token() {
    let mut state = ServerState::new(unlimited());
    assert!(!state.register_udp_by_token(12345, addr(5000), 0));
}

#[test]
fn register_udp_rejects_ip_mismatch() {
    let mut state = ServerState::new(unlimited());
    let tcp = addr(1);
    state.register_client(tcp).unwrap();
    let ch = state.create_channel(None, 0).unwrap();
    let (_, token, _) = state.join_channel(&tcp, &ch, 0).unwrap();

    let foreign = Addr::V4 { ip: 0x0A00_0001, port: 5000 };
    assert!(!state.register_udp_by_token(token, foreign, 0));

    // The token is still good for the client that it belongs to.
    assert!(state.register_udp_by_token(token, addr(5000), 0));
}

#[test]
fn register_udp_accepts_v4_mapped_tcp_ip() {
    let mut state = ServerState::new(unlimited());
    let tcp = Addr::V6 { ip: 0xFFFF_7F00_0001, port: 1, flowinfo: 0, scope_id: 0 };
    state.register_client(tcp).unwrap();
    let ch = state.create_channel(None, 0).unwrap();
    let (_, token, _) = state.join_channel(&tcp, &ch, 0).unwrap();

    assert!(state.register_udp_by_token(token, addr(5000), 0));
}

#[test]
fn register_udp_rehello_reacks_and_replaces_stale_addr() {
    let mut state = ServerState::new(unlimited());
    state.register_client(addr(1)).unwrap();
    let ch = state.create_channel(None, 0).unwrap();
    let (_, token, _) = state.join_channel(&addr(1), &ch, 0).unwrap();

    assert!(state.register_udp_by_token(token, addr(5000), 0));
    assert!(state.register_udp_by_token(token, addr(5000), 0));

    assert!(state.register_udp_by_token(token, addr(5001), 0));
    let mut peers = Vec::new();
    state.fill_channel_peers(&ch, &addr(99), &mut peers);
    assert_eq!(peers, vec![addr(5001)]);
}

#[test]
fn fill_channel_peers_excludes_sender() {
    let mut state = ServerState::new(unlimited());
    state.register_client(addr(1)).unwrap();
    state.register_client(addr(2)).unwrap();
    let ch = state.create_channel(None, 0).unwrap();
    let (_, t1, _) = state.join_channel(&addr(1), &ch, 0).unwrap();
    let (_, t2, _) = state.join_channel(&addr(2), &ch, 0).unwrap();

    let udp1 = addr(5001);
    let udp2 = addr(5002);
    state.register_udp_by_token(t1, udp1, 0);
    state.register_udp_by_token(t2, udp2, 0);

    let mut peers = Vec::new();
    state.fill_channel_peers(&ch, &udp1, &mut peers);
    assert_eq!(peers, vec![udp2]);
}

#[test]
fn start_echo_test_returns_prefixed_channel_token_key() {
    let mut state = ServerState::new(unlimited());
    state.register_client(addr(1)).unwrap();
    let (channel_id, token, key) = state.start_echo_test(&addr(1), 0).unwrap();
    assert!(channel_id.starts_with(config::ECHO_CHANNEL_PREFIX));
    assert_ne!(token, 0);
    assert_eq!(key.len(), 32);
}

#[test]
fn start_echo_test_rejected_when_in_channel() {
    let mut state = ServerState::new(unlimited());
    state.register_client(addr(1)).unwrap();
    let ch = state.create_channel(None, 0).unwrap();
    state.join_channel(&addr(1), &ch, 0).unwrap();
    assert!(state.start_echo_test(&addr(1), 0).is_err());
}

#[test]
fn echo_channel_peer_includes_sender() {
    let mut state = ServerState::new(unlimited());
    state.register_client(addr(1)).unwrap();
    let (channel_id, token, _) = state.start_echo_test(&addr(1), 0).unwrap();
    let udp = addr(5001);
    assert!(state.register_udp_by_token(token, udp, 0));

    let no_exclude = Addr::V4 { ip: 0, port: 0 };
    let mut peers = Vec::new();
    state.fill_channel_peers(&channel_id, &no_exclude, &mut peers);
    assert_eq!(peers, vec![udp]);
}

#[test]
fn rename_client_returns_old_name() {
    let mut state = ServerState::new(unlimited());
    let name = state.register_client(addr(1)).unwrap();
    let (old, ch) = state.rename_client(&addr(1), "alice".into()).unwrap();
    assert_eq!(old, name);
    assert!(ch.is_none());
}

#[test]
fn rename_nonexistent_client_returns_none() {
    let mut state = ServerState::new(unlimited());
    assert!(state.rename_client(&addr(99), "bob".into()).is_none());
}

#[test]
fn get_client_returns_info() {
    let mut state = ServerState::new(unlimited());
    let name = state.register_client(addr(1)).unwrap();
    let info = state.get_client(&addr(1)).unwrap();
    assert_eq!(info.name, name);
    assert!(info.channel.is_none());
}

#[test]
fn get_nonexistent_client_returns_none() {
    let state = ServerState::new(unlimited());
    assert!(state.get_client(&addr(99)).is_none());
}

#[test]
fn list_public_channels_filters_private() {
    let mut state = ServerState::new(unlimited());
    state.create_channel(None, 0).unwrap();
    state.create_channel(Some("pub1"), 0).unwrap();
    state.create_channel(Some("pub2"), 0).unwrap();

    let public = state.list_public_channels();
    assert_eq!(public.len(), 2);
    assert!(public.iter().all(|(id, _)| id.starts_with("pub-")));
}

#[test]
fn cleanup_removes_empty_channels_after_grace() {
    let mut state = ServerState::new(unlimited());
    let _ch = state.create_channel(None, 0).unwrap();

    let removed = state.cleanup_empty_channels(0);
    assert_eq!(removed.len(), 0);

    let removed = state.cleanup_with(0, 30 * SEC, 5 * MS);
    assert_eq!(removed.len(), 1);
}

#[test]
fn cleanup_keeps_occupied_channels() {
    let mut state = ServerState::new(unlimited());
    state.register_client(addr(1)).unwrap();
    let ch = state.create_channel(None, 0).unwrap();
    state.join_channel(&addr(1), &ch, 0).unwrap();

    let removed = state.cleanup_with(0, 30 * SEC, 5 * MS);
    assert_eq!(removed.len(), 0);
}

#[test]
fn cleanup_keeps_tokens_of_live_in_channel_sessions() {
    let mut state = ServerState::new(unlimited());
    state.register_client(addr(1)).unwrap();
    let ch = state.create_channel(None, 0).unwrap();
    let (_, token, _) = state.join_channel(&addr(1), &ch, 0).unwrap();
    state.register_udp_by_token(token, addr(5001), 0);

    state.cleanup_with(300 * SEC, 0, 5 * MS);

    assert!(state.register_udp_by_token(token, addr(5002), 5 * MS));
}

#[test]
fn cleanup_expires_aged_tokens_of_sessions_out_of_channel() {
    let mut state = ServerState::new(unlimited());
    state.register_client(addr(1)).unwrap();
    let ch = state.create_channel(None, 0).unwrap();
    let (_, token, _) = state.join_channel(&addr(1), &ch, 0).unwrap();

    // A new client at the same address is in no channel; the token stays behind.
    state.register_client(addr(1)).unwrap();
    assert!(state.get_client(&addr(1)).unwrap().channel.is_none());
    state.cleanup_with(300 * SEC, 0, 5 * MS);

    assert!(!state.register_udp_by_token(token, addr(5001), 5 * MS));
}

#[test]
fn stats_returns_correct_counts() {
    let mut state = ServerState::new(unlimited());
    state.register_client(addr(1)).unwrap();
    state.register_client(addr(2)).unwrap();
    let ch = state.create_channel(None, 0).unwrap();
    let (_, token, _) = state.join_channel(&addr(1), &ch, 0).unwrap();
    state.register_udp_by_token(token, addr(5001), 0);

    let s = state.stats();
    assert_eq!(s.clients, 2);
    assert_eq!(s.channels, 1);
    assert_eq!(s.udp_peers, 1);
}

#[test]
fn broadcast_channel_excludes_sender() {
    let mut state = ServerState::new(unlimited());
    state.register_client(addr(1)).unwrap();
    state.register_client(addr(2)).unwrap();
    let ch = state.create_channel(None, 0).unwrap();
    state.join_channel(&addr(1), &ch, 0).unwrap();
    state.join_channel(&addr(2), &ch, 0).unwrap();

    let received = state.broadcast_channel_addrs(&ch, Some(&addr(1)));

    assert_eq!(received.len(), 1);
    assert_eq!(received[0], addr(2));
}

#[test]
fn remove_last_client_deletes_channel() {
    let mut state = ServerState::new(unlimited());
    state.register_client(addr(1)).unwrap();
    let ch = state.create_channel(None, 0).unwrap();
    state.join_channel(&addr(1), &ch, 0).unwrap();

    state.remove_client(&addr(1));

    let s = state.stats();
    assert_eq!(s.channels, 0);
}

#[test]
fn persistent_channel_survives_last_client_leaving() {
    let mut state = ServerState::new(unlimited());
    let ch = state.create_persistent_channel("lobby", 0).unwrap();
    state.register_client(addr(1)).unwrap();
    state.join_channel(&addr(1), &ch, 0).unwrap();

    state.remove_client(&addr(1));

    let s = state.stats();
    assert_eq!(s.channels, 1);
    let public = state.list_public_channels();
    assert_eq!(public, vec![(ch, 0)]);
}

#[test]
fn persistent_channel_survives_cleanup() {
    let mut state = ServerState::new(unlimited());
    let _ch = state.create_persistent_channel("general", 0).unwrap();

    let removed = state.cleanup_with(0, 30 * SEC, 5 * MS);
    assert_eq!(removed.len(), 0);
    assert_eq!(state.stats().channels, 1);
}

#[test]
fn persistent_channel_rotates_key_on_rejoin() {
    let mut state = ServerState::new(unlimited());
    let ch = state.create_persistent_channel("music", 0).unwrap();

    state.register_client(addr(1)).unwrap();
    let (_, _, key1) = state.join_channel(&addr(1), &ch, 0).unwrap();
    state.remove_client(&addr(1));

    state.register_client(addr(2)).unwrap();
    let (_, _, key2) = state.join_channel(&addr(2), &ch, 0).unwrap();

    assert_eq!(key1.len(), 32);
    assert_eq!(key2.len(), 32);
    assert_ne!(key1, key2, "voice key must rotate across sessions");
}

#[test]
fn persistent_channel_survives_leaving_it() {
    let mut state = ServerState::new(unlimited());
    let ch = state.create_persistent_channel("lobby", 0).unwrap();
    state.register_client(addr(1)).unwrap();
    state.join_channel(&addr(1), &ch, 0).unwrap();
    state.leave_channel(&addr(1)).unwrap();
    assert_eq!(state.list_public_channels(), vec![(ch, 0)]);
}

#[test]
fn both_participants_of_a_channel_get_one_key() {
    let mut state = ServerState::new(unlimited());
    state.register_client(addr(1)).unwrap();
    state.register_client(addr(2)).unwrap();
    let ch = state.create_channel(None, 0).unwrap();
    let (_, _, key1) = state.join_channel(&addr(1), &ch, 0).unwrap();
    let (names, _, key2) = state.join_channel(&addr(2), &ch, 0).unwrap();
    assert_eq!(key1, key2);
    assert_eq!(names.len(), 2);
}

#[test]
fn errors_of_the_server_state() {
    let mut state = ServerState::new(Limits {
        max_channels: 2,
        max_clients: 2,
        rate_limit_multiplier: 10_000,
    });
    state.register_client(addr(1)).unwrap();
    state.register_client(addr(2)).unwrap();
    assert!(state.register_client(addr(3)).is_err());
    let ch = state.create_channel(Some("a"), 0).unwrap();
    assert!(state.create_channel(Some("a"), 0).is_err());
    state.create_channel(None, 0).unwrap();
    assert!(state.create_channel(Some("b"), 0).is_err());
    assert!(state.join_channel(&addr(9), &ch, 0).is_err());
    assert!(state.join_channel(&addr(1), &"pub-zzz".to_string(), 0).is_err());
    state.join_channel(&addr(1), &ch, 0).unwrap();
    assert!(state.join_channel(&addr(1), &ch, 0).is_err());
    assert!(state.start_echo_test(&addr(1), 0).is_err());
    assert!(state.start_echo_test(&addr(9), 0).is_err());
}

#[test]
fn the_last_client_with_a_key_owns_it() {
    let mut state = ServerState::new(unlimited());
    state.register_client(addr(1)).unwrap();
    state.register_client(addr(2)).unwrap();
    let key = vec![7u8; 32];
    assert_eq!(state.lookup_pubkey(&key), None);
    state.set_pubkey(&addr(1), key.clone());
    assert_eq!(state.lookup_pubkey(&key), Some(addr(1)));
    state.set_pubkey(&addr(2), key.clone());
    assert_eq!(state.lookup_pubkey(&key), Some(addr(2)));
    let other = vec![8u8; 32];
    state.set_pubkey(&addr(2), other.clone());
    assert_eq!(state.lookup_pubkey(&key), None);
    state.remove_client(&addr(2));
    assert_eq!(state.lookup_pubkey(&other), None);
}

#[test]
fn deliveries_are_counted() {
    let mut state = ServerState::new(unlimited());
    state.note_delivery(false, true);
    state.note_delivery(true, true);
    state.note_delivery(true, true);
    state.note_delivery(false, false);
    let m = state.metrics().snapshot();
    assert_eq!(m.tcp_sends, 1);
    assert_eq!(m.tcp_broadcast_sends, 2);
    assert_eq!(m.tcp_drops_queue_full, 1);
}

#[test]
fn mapped_addresses_are_the_same_host() {
    let mapped = Ip::V6(0xFFFF_7F00_0001);
    assert_eq!(mapped.to_canonical(), Ip::V4(0x7F00_0001));
    assert_eq!(Ip::V6(1).to_canonical(), Ip::V6(1));
}

#[test]
fn a_channel_stays_while_somebody_is_in_it() {
    let mut state = ServerState::new(unlimited());
    state.register_client(addr(1)).unwrap();
    state.register_client(addr(2)).unwrap();
    state.register_client(addr(3)).unwrap();
    let ch = state.create_channel(None, 0).unwrap();
    for port in [1, 2, 3] {
        state.join_channel(&addr(port), &ch, 0).unwrap();
    }

    state.leave_channel(&addr(1)).unwrap();
    assert_eq!(state.stats().channels, 1);
    assert_eq!(state.get_client(&addr(2)).unwrap().channel, Some(ch.clone()));

    state.remove_client(&addr(3)).unwrap();
    assert_eq!(state.stats().channels, 1);
    let (names, _, _) = state.join_channel(&addr(1), &ch, 0).unwrap();
    assert_eq!(names.len(), 2);

    state.leave_channel(&addr(1)).unwrap();
    state.leave_channel(&addr(2)).unwrap();
    assert_eq!(state.stats().channels, 0);
}

#[test]
fn a_hello_reaches_a_channel_that_others_left() {
    let mut state = ServerState::new(unlimited());
    state.register_client(addr(1)).unwrap();
    state.register_client(addr(2)).unwrap();
    let ch = state.create_channel(None, 0).unwrap();
    let (_, first, _) = state.join_channel(&addr(1), &ch, 0).unwrap();
    let (_, second, _) = state.join_channel(&addr(2), &ch, 0).unwrap();
    assert!(state.register_udp_by_token(first, addr(5001), 0));
    state.leave_channel(&addr(1)).unwrap();

    assert!(!state.register_udp_by_token(first, addr(5001), 0));
    assert!(state.register_udp_by_token(second, addr(5002), 0));
    let mut peers = Vec::new();
    state.fill_channel_peers(&ch, &addr(9), &mut peers);
    assert_eq!(peers, vec![addr(5002)]);
    assert!(state.register_udp_by_token(second, addr(5003), 0));
    state.fill_channel_peers(&ch, &addr(9), &mut peers);
    assert_eq!(peers, vec![addr(5003)]);
}

#[test]
fn a_key_stays_with_its_last_presenter() {
    let mut state = ServerState::new(unlimited());
    let key = vec![7u8; 32];
    for port in [1, 2] {
        state.register_client(addr(port)).unwrap();
        state.set_pubkey(&addr(port), key.clone());
    }
    state.remove_client(&addr(1)).unwrap();
    assert_eq!(state.lookup_pubkey(&key), Some(addr(2)));

    state.register_client(addr(3)).unwrap();
    state.set_pubkey(&addr(3), key.clone());
    state.set_pubkey(&addr(2), vec![8u8; 32]);
    assert_eq!(state.lookup_pubkey(&key), Some(addr(3)));
    assert_eq!(state.lookup_pubkey(&vec![8u8; 32]), Some(addr(2)));
    state.remove_client(&addr(3)).unwrap();
    assert_eq!(state.lookup_pubkey(&key), None);
}
