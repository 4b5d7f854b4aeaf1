use serial_bridge::abr::{abr_preamble, abr_sequence, AbrStep, BREAK_HOLD_MICROS, RELEASE_WAIT_MICROS};
use serial_bridge::addr::{AddressingMode, PeerAddr};
use serial_bridge::fanout::FanOut;
use serial_bridge::relay::{relay_step, RelayError, SerialRead};
use serial_bridge::socket::{new, Datagram, PeerPolicy, Socket};

fn peer(last: u8, port: u16) -> PeerAddr {
    PeerAddr::v4(10, 0, 0, last, port)
}

fn policy(max_peers: usize, idle_eviction: bool) -> PeerPolicy {
    PeerPolicy { max_peers, idle_eviction, max_age: 10_000 }
}

fn server(max_peers: usize) -> Socket {
    new(PeerAddr::v4(0, 0, 0, 0, 9092), 0, policy(max_peers, true))
}

fn dgram(from: PeerAddr, payload: &[u8]) -> Datagram {
    Datagram { peer: from, payload: payload.to_vec() }
}

fn destinations(ds: &[Datagram]) -> Vec<PeerAddr> {
    let mut v: Vec<PeerAddr> = ds.iter().map(|d| d.peer).collect();
    v.sort_by_key(|a| (a.ipv6, a.ip, a.port, a.scope_id));
    v
}

#[test]
fn server_binds_the_configured_address() {
    let s = new(PeerAddr::v4(127, 0, 0, 1, 9092), 7000, policy(5, true));
    assert_eq!(s.addressing_mode(), AddressingMode::Server);
    assert_eq!(s.bind_address(), PeerAddr::v4(127, 0, 0, 1, 9092));
    assert_eq!(s.peer_count(), 0);
}

#[test]
fn client_binds_the_listen_port() {
    let remote = PeerAddr::v4(192, 168, 1, 50, 9092);
    let s = new(remote, 7000, policy(5, true));
    assert_eq!(s.addressing_mode(), AddressingMode::Client { remote });
    assert_eq!(s.bind_address(), PeerAddr::v4(0, 0, 0, 0, 7000));
}

#[test]
fn fan_out_sends_the_bytes_to_every_peer() {
    let mut s = server(5);
    let batch = vec![dgram(peer(1, 100), b"a"), dgram(peer(2, 100), b"b"), dgram(peer(3, 100), b"c")];
    s.read(&batch, 1_000);
    let out = s.write(&[1, 2, 3, 255], 2_000);
    assert_eq!(destinations(&out), vec![peer(1, 100), peer(2, 100), peer(3, 100)]);
    for d in out.iter() {
        assert_eq!(d.payload, vec![1, 2, 3, 255]);
    }
}

#[test]
fn write_with_no_peers_sends_nothing() {
    let mut s = server(5);
    assert!(s.write(b"hello", 0).is_empty());
}

#[test]
fn fan_in_joins_payloads_in_arrival_order() {
    let mut s = server(5);
    let batch = vec![dgram(peer(2, 1), b"he"), dgram(peer(1, 1), b"ll"), dgram(peer(2, 1), b"o!")];
    let (bytes, calibrate) = s.read(&batch, 10);
    assert_eq!(bytes, b"hello!".to_vec());
    assert!(!calibrate);
    assert_eq!(s.peer_count(), 2);
}

#[test]
fn empty_batch_gives_nothing() {
    let mut s = server(5);
    let (bytes, calibrate) = s.read(&Vec::new(), 10);
    assert!(bytes.is_empty());
    assert!(!calibrate);
}

#[test]
fn empty_datagram_triggers_calibration_and_is_not_forwarded() {
    let mut s = server(5);
    let batch = vec![dgram(peer(1, 1), b"ab"), dgram(peer(2, 1), b""), dgram(peer(1, 1), b"c")];
    let (bytes, calibrate) = s.read(&batch, 10);
    assert_eq!(bytes, b"abc".to_vec());
    assert!(calibrate);
    // the sender of the empty datagram is not recorded
    assert_eq!(s.peer_count(), 1);
}

#[test]
fn client_mode_writes_only_to_the_remote() {
    let remote = PeerAddr::v4(192, 168, 1, 50, 9092);
    let mut s = new(remote, 0, policy(5, true));
    s.read(&vec![dgram(peer(1, 1), b"x"), dgram(peer(2, 1), b"y")], 10);
    let out = s.write(b"data", 20);
    assert_eq!(out.len(), 1);
    assert_eq!(out[0].peer, remote);
    assert_eq!(out[0].payload, b"data".to_vec());
}

#[test]
fn idle_peers_get_no_write() {
    let mut s = server(5);
    s.read(&vec![dgram(peer(1, 1), b"x")], 0);
    s.read(&vec![dgram(peer(2, 1), b"y")], 5_000);
    let out = s.write(b"z", 12_000);
    assert_eq!(destinations(&out), vec![peer(2, 1)]);
    assert_eq!(s.peer_count(), 1);
}

#[test]
fn idle_peers_stay_when_eviction_is_off() {
    let mut s = new(PeerAddr::v4(0, 0, 0, 0, 9092), 0, policy(5, false));
    s.read(&vec![dgram(peer(1, 1), b"x")], 0);
    let out = s.write(b"z", 1_000_000);
    assert_eq!(destinations(&out), vec![peer(1, 1)]);
}

#[test]
fn capacity_applies_even_without_idle_eviction() {
    let mut s = new(PeerAddr::v4(0, 0, 0, 0, 9092), 0, policy(1, false));
    s.read(&vec![dgram(peer(1, 1), b"x")], 1);
    s.read(&vec![dgram(peer(2, 1), b"y")], 2);
    let out = s.write(b"z", 1_000_000);
    assert_eq!(destinations(&out), vec![peer(2, 1)]);
}

#[test]
fn end_to_end_two_most_recent_of_three_clients() {
    let mut s = new(PeerAddr::v4(127, 0, 0, 1, 9092), 0, policy(2, true));
    assert_eq!(s.addressing_mode(), AddressingMode::Server);
    let a = PeerAddr::v4(127, 0, 0, 1, 50001);
    let b = PeerAddr::v4(127, 0, 0, 1, 50002);
    let c = PeerAddr::v4(127, 0, 0, 1, 50003);
    s.read(&vec![dgram(a, b"1")], 100);
    s.read(&vec![dgram(b, b"2")], 200);
    s.read(&vec![dgram(c, b"3")], 300);
    let out = s.write(b"serial", 400);
    assert_eq!(s.peer_count(), 2);
    assert_eq!(destinations(&out), vec![b, c]);
    for d in out.iter() {
        assert_eq!(d.payload, b"serial".to_vec());
    }
}

#[test]
fn relay_step_forwards_both_ways() {
    let mut s = server(5);
    s.read(&vec![dgram(peer(1, 1), b"hi")], 0);
    let plan = relay_step(&mut s, &SerialRead::Bytes(b"out".to_vec()), &vec![dgram(peer(2, 1), b"in")], 10).unwrap();
    assert_eq!(destinations(&plan.to_udp), vec![peer(1, 1)]);
    assert_eq!(plan.to_udp[0].payload, b"out".to_vec());
    assert_eq!(plan.to_serial, b"in".to_vec());
    assert!(!plan.calibrate);
    assert_eq!(s.peer_count(), 2);
}

#[test]
fn relay_step_ignores_empty_and_failed_serial_reads() {
    let mut s = server(5);
    s.read(&vec![dgram(peer(1, 1), b"hi")], 0);
    let plan = relay_step(&mut s, &SerialRead::Bytes(Vec::new()), &Vec::new(), 10).unwrap();
    assert!(plan.to_udp.is_empty());
    let plan = relay_step(&mut s, &SerialRead::Failed, &vec![dgram(peer(1, 1), b"")], 10).unwrap();
    assert!(plan.to_udp.is_empty());
    assert!(plan.to_serial.is_empty());
    assert!(plan.calibrate);
}

#[test]
fn relay_step_stops_on_disconnected_serial() {
    let mut s = server(5);
    let r = relay_step(&mut s, &SerialRead::Disconnected, &vec![dgram(peer(1, 1), b"x")], 10);
    assert_eq!(r.err(), Some(RelayError::SerialDisconnected));
    assert_eq!(s.peer_count(), 0);
}

#[test]
fn failed_send_does_not_stop_the_others() {
    let plan = vec![dgram(peer(1, 1), b"d"), dgram(peer(2, 1), b"d"), dgram(peer(3, 1), b"d")];
    let mut f = FanOut::new(plan);
    let mut offered = Vec::new();
    while let Some(d) = f.current() {
        let p = d.peer;
        offered.push(p);
        f.record(p != peer(1, 1));
    }
    assert_eq!(offered, vec![peer(1, 1), peer(2, 1), peer(3, 1)]);
    assert_eq!(f.failed().clone(), vec![peer(1, 1)]);
}

#[test]
fn abr_preamble_is_ten_u() {
    assert_eq!(abr_preamble(), b"UUUUUUUUUU".to_vec());
}

#[test]
fn abr_sequence_breaks_then_sends_the_preamble() {
    let steps = abr_sequence();
    assert_eq!(
        steps,
        vec![
            AbrStep::SetBreak,
            AbrStep::Wait { micros: BREAK_HOLD_MICROS },
            AbrStep::ClearBreak,
            AbrStep::Wait { micros: RELEASE_WAIT_MICROS },
            AbrStep::Send { bytes: vec![0x55; 10] },
        ]
    );
    assert_eq!(BREAK_HOLD_MICROS, 10_000);
    assert_eq!(RELEASE_WAIT_MICROS, 10);
}

#[test]
fn client_mode_registry_stays_empty() {
    let remote = PeerAddr::v4(192, 168, 1, 50, 9092);
    let mut s = new(remote, 0, policy(1, true));
    let (bytes, calibrate) = s.read(&vec![dgram(peer(1, 1), b"x"), dgram(peer(2, 1), b"y"), dgram(peer(3, 1), b"")], 10);
    assert_eq!(bytes, b"xy".to_vec());
    assert!(calibrate);
    assert_eq!(s.peer_count(), 0);
    let out = s.write(b"z", 20);
    assert_eq!(destinations(&out), vec![remote]);
    assert_eq!(s.peer_count(), 0);
}

#[test]
fn scope_id_tells_ipv6_peers_apart() {
    let mut s = server(5);
    let a = PeerAddr::v6((0xfe80u128 << 112) | 1, 4000, 1);
    let b = PeerAddr::v6((0xfe80u128 << 112) | 1, 4000, 2);
    s.read(&vec![dgram(a, b"1"), dgram(b, b"2")], 5);
    assert_eq!(s.peer_count(), 2);
    assert_eq!(destinations(&s.write(b"q", 6)), vec![a, b]);
}
