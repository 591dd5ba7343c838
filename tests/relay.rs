use packet_inspector::{PacketDirection, PacketStore, RelayError, RelayEvent, RelayPhase, State};

fn is_checking(s: &State) -> bool {
    matches!(s.phase, RelayPhase::Checking)
}

fn stopped_with(s: &State) -> Option<RelayError> {
    match s.phase {
        RelayPhase::Stopped(e) => Some(e),
        _ => None,
    }
}

fn relay_frame(s: &mut State, store: &mut PacketStore, chunks: &[usize], frame: &[u8]) {
    for &n in chunks {
        assert!(!s.rw_packet(store, RelayEvent::FrameReady(false)));
        assert!(matches!(s.phase, RelayPhase::Reading));
        assert!(!s.rw_packet(store, RelayEvent::BytesRead(n)));
        assert!(is_checking(s));
    }
    assert!(!s.rw_packet(store, RelayEvent::FrameReady(true)));
    assert!(matches!(s.phase, RelayPhase::Decoding));
    assert!(!s.rw_packet(store, RelayEvent::Reencoded(Some(frame.to_vec()))));
    match &s.phase {
        RelayPhase::Writing(b) => assert_eq!(b.as_slice(), frame),
        _ => panic!("expected a write"),
    }
    assert!(s.rw_packet(store, RelayEvent::Written(true)));
    assert!(is_checking(s));
}

#[test]
fn frames_over_many_chunks_are_logged_in_order() {
    let mut store = PacketStore::new(None);
    let mut s = State::new(PacketDirection::ServerToClient);
    let frames: Vec<Vec<u8>> = vec![vec![0x01, 0x10], vec![0x02, 0x20, 0x21], vec![0x03]];
    relay_frame(&mut s, &mut store, &[1, 1, 1], &frames[0]);
    relay_frame(&mut s, &mut store, &[], &frames[1]);
    relay_frame(&mut s, &mut store, &[4096], &frames[2]);
    assert!(!s.rw_packet(&mut store, RelayEvent::FrameReady(false)));
    assert!(!s.rw_packet(&mut store, RelayEvent::BytesRead(0)));
    assert_eq!(stopped_with(&s), Some(RelayError::ConnectionClosed));
    assert_eq!(store.packets.len(), 3);
    for (i, p) in store.packets.iter().enumerate() {
        assert_eq!(p.id, i);
        assert_eq!(p.packet, frames[i]);
        assert_eq!(p.direction, PacketDirection::ServerToClient);
        assert!(!p.selected);
    }
}

#[test]
fn zero_read_before_any_frame_closes() {
    let mut store = PacketStore::new(None);
    let mut s = State::new(PacketDirection::ClientToServer);
    s.rw_packet(&mut store, RelayEvent::FrameReady(false));
    s.rw_packet(&mut store, RelayEvent::BytesRead(0));
    assert_eq!(stopped_with(&s), Some(RelayError::ConnectionClosed));
    assert!(store.packets.is_empty());
}

#[test]
fn zero_read_mid_frame_closes() {
    let mut store = PacketStore::new(None);
    let mut s = State::new(PacketDirection::ClientToServer);
    s.rw_packet(&mut store, RelayEvent::FrameReady(false));
    s.rw_packet(&mut store, RelayEvent::BytesRead(3));
    s.rw_packet(&mut store, RelayEvent::FrameReady(false));
    s.rw_packet(&mut store, RelayEvent::BytesRead(0));
    assert_eq!(stopped_with(&s), Some(RelayError::ConnectionClosed));
}

#[test]
fn read_failure_is_io_error() {
    let mut store = PacketStore::new(None);
    let mut s = State::new(PacketDirection::ClientToServer);
    s.rw_packet(&mut store, RelayEvent::FrameReady(false));
    s.rw_packet(&mut store, RelayEvent::ReadFailed);
    assert_eq!(stopped_with(&s), Some(RelayError::IoError));
}

#[test]
fn missing_packet_is_malformed() {
    let mut store = PacketStore::new(None);
    let mut s = State::new(PacketDirection::ClientToServer);
    s.rw_packet(&mut store, RelayEvent::FrameReady(true));
    s.rw_packet(&mut store, RelayEvent::Reencoded(None));
    assert_eq!(stopped_with(&s), Some(RelayError::MalformedFrame));
    assert!(store.packets.is_empty());
}

#[test]
fn failed_write_is_io_error_and_logs_nothing() {
    let mut store = PacketStore::new(None);
    let mut s = State::new(PacketDirection::ClientToServer);
    s.rw_packet(&mut store, RelayEvent::FrameReady(true));
    s.rw_packet(&mut store, RelayEvent::Reencoded(Some(vec![5, 6])));
    assert!(!s.rw_packet(&mut store, RelayEvent::Written(false)));
    assert_eq!(stopped_with(&s), Some(RelayError::IoError));
    assert!(store.packets.is_empty());
}

#[test]
fn unexpected_event_changes_nothing() {
    let mut store = PacketStore::new(None);
    let mut s = State::new(PacketDirection::ClientToServer);
    assert!(!s.rw_packet(&mut store, RelayEvent::BytesRead(0)));
    assert!(is_checking(&s));
    s.rw_packet(&mut store, RelayEvent::FrameReady(false));
    s.rw_packet(&mut store, RelayEvent::BytesRead(0));
    s.rw_packet(&mut store, RelayEvent::FrameReady(true));
    assert_eq!(stopped_with(&s), Some(RelayError::ConnectionClosed));
}

#[test]
fn two_directions_share_one_log() {
    let mut store = PacketStore::new(None);
    let mut inbound = State::new(PacketDirection::ClientToServer);
    let mut outbound = State::new(PacketDirection::ServerToClient);
    relay_frame(&mut inbound, &mut store, &[2], &[0x00, 0x01]);
    relay_frame(&mut outbound, &mut store, &[], &[0x02]);
    relay_frame(&mut inbound, &mut store, &[], &[0x03]);
    assert_eq!(store.packets.len(), 3);
    assert_eq!(store.packets[1].direction, PacketDirection::ServerToClient);
    assert_eq!(store.packets[2].direction, PacketDirection::ClientToServer);
    assert_eq!(store.packets[2].id, 2);
}
