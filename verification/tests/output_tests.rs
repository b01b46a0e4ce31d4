use std::time::Duration;

use obs_webrtc::ffi::{connect_time_ms, write_accepted, OBSWebRTCWHIPOutputError};
use obs_webrtc::output::{
    close_plan, connect_failed_message, error_for_callback, gather_addresses, ip_allowed,
    is_loopback, packet_from_obs, worker_step, write_outcome, EncodedPacketType, IpAddress,
    Message, OutputStreamError, PeerConnectionState, StreamStats, WorkerAction, WorkerEvent,
    WorkerResult,
};

fn packet(is_audio: bool) -> obs_webrtc::output::EncodedPacket {
    packet_from_obs(vec![1, 2, 3], Duration::from_micros(20_000), is_audio)
}

#[test]
fn packet_type_follows_is_audio() {
    let a = packet(true);
    assert_eq!(a.typ, EncodedPacketType::Audio);
    assert_eq!(a.data, vec![1, 2, 3]);
    assert_eq!(a.duration, Duration::from_millis(20));
    assert_eq!(packet(false).typ, EncodedPacketType::Video);
}

#[test]
fn packets_go_to_the_track_of_their_kind() {
    match worker_step(WorkerEvent::Received(Some(Message::Packet(packet(true))), PeerConnectionState::Connected)) {
        WorkerAction::WriteAudio(p) => assert_eq!(p.data, vec![1, 2, 3]),
        _ => panic!("expected an audio write"),
    }
    match worker_step(WorkerEvent::Received(Some(Message::Packet(packet(false))), PeerConnectionState::New)) {
        WorkerAction::WriteVideo(p) => assert_eq!(p.typ, EncodedPacketType::Video),
        _ => panic!("expected a video write"),
    }
}

#[test]
fn packets_on_a_dead_connection_stop_with_network_error() {
    for state in [PeerConnectionState::Failed, PeerConnectionState::Closed] {
        match worker_step(WorkerEvent::Received(Some(Message::Packet(packet(true))), state)) {
            WorkerAction::Stop(WorkerResult::Error(OutputStreamError::NetworkError)) => {}
            _ => panic!("expected a network error"),
        }
    }
    match worker_step(WorkerEvent::Received(Some(Message::Packet(packet(true))), PeerConnectionState::Disconnected)) {
        WorkerAction::WriteAudio(_) => {}
        _ => panic!("a disconnected connection still takes packets"),
    }
}

#[test]
fn close_and_end_of_channel_stop_cleanly() {
    assert!(matches!(
        worker_step(WorkerEvent::Received(Some(Message::Close), PeerConnectionState::Connected)),
        WorkerAction::Stop(WorkerResult::Close)
    ));
    assert!(matches!(
        worker_step(WorkerEvent::Received(None, PeerConnectionState::Failed)),
        WorkerAction::Stop(WorkerResult::Close)
    ));
}

#[test]
fn error_message_stops_with_that_error() {
    assert!(matches!(
        worker_step(WorkerEvent::Received(Some(connect_failed_message()), PeerConnectionState::Connected)),
        WorkerAction::Stop(WorkerResult::Error(OutputStreamError::ConnectFailed))
    ));
}

#[test]
fn stats_reports_never_stop_the_worker() {
    assert!(matches!(worker_step(WorkerEvent::StatsReport(Some(1234))), WorkerAction::RecordBytesSent(1234)));
    assert!(matches!(worker_step(WorkerEvent::StatsReport(None)), WorkerAction::Wait));
}

#[test]
fn failed_writes_stop_with_write_error() {
    assert!(write_outcome(Ok(())).is_none());
    assert!(matches!(
        write_outcome(Err(webrtc::Error::ErrConnectionClosed)),
        Some(WorkerResult::Error(OutputStreamError::WriteError(webrtc::Error::ErrConnectionClosed)))
    ));
}

#[test]
fn callback_gets_the_error_only() {
    assert!(matches!(
        error_for_callback(WorkerResult::Error(OutputStreamError::NetworkError), true),
        Some(OutputStreamError::NetworkError)
    ));
    assert!(error_for_callback(WorkerResult::Error(OutputStreamError::NetworkError), false).is_none());
    assert!(error_for_callback(WorkerResult::Close, true).is_none());
}

#[test]
fn stream_errors_map_to_obs_errors() {
    assert_eq!(OBSWebRTCWHIPOutputError::from(OutputStreamError::ConnectFailed), OBSWebRTCWHIPOutputError::ConnectFailed);
    assert_eq!(OBSWebRTCWHIPOutputError::from(OutputStreamError::NetworkError), OBSWebRTCWHIPOutputError::NetworkError);
    assert_eq!(
        OBSWebRTCWHIPOutputError::from(OutputStreamError::WriteError(webrtc::Error::ErrConnectionClosed)),
        OBSWebRTCWHIPOutputError::NetworkError
    );
}

#[test]
fn stats_start_empty_and_record_bytes() {
    let mut s = StreamStats::new();
    assert_eq!(s.bytes_sent(), 0);
    assert_eq!(s.dropped_frames(), 0);
    s.record_bytes_sent(4096);
    assert_eq!(s.bytes_sent(), 4096);
    assert_eq!(s.dropped_frames(), 0);
}

#[test]
fn connect_time_without_start_stays_zero() {
    let mut s = StreamStats::new();
    assert_eq!(s.connect_time(5_000_000_000), 0);
    assert_eq!(s.connected_for, 0);
}

#[test]
fn connect_time_counts_from_the_start() {
    let mut s = StreamStats::new();
    s.connected_at = Some(1_000);
    assert_eq!(s.connect_time(3_500), 2_500);
    assert_eq!(s.connect_time(500), 0);
    assert_eq!(s.connected_for, 0);
}

#[test]
fn connect_time_in_c_milliseconds() {
    assert_eq!(connect_time_ms(0), 0);
    assert_eq!(connect_time_ms(2_999_999), 2);
    assert_eq!(connect_time_ms(90_000_000_000), 90_000);
    // 2^31 ms wraps to a negative C int
    assert_eq!(connect_time_ms(2_147_483_648u64 * 1_000_000), i32::MIN);
}

#[test]
fn write_result_becomes_a_bool() {
    assert!(write_accepted::<()>(&Ok(())));
    assert!(!write_accepted(&Err("closed")));
}

#[test]
fn loopback_addresses() {
    assert!(is_loopback(IpAddress::V4(0x7f00_0001)));
    assert!(is_loopback(IpAddress::V4(0x7f08_090a)));
    assert!(!is_loopback(IpAddress::V4(0xc0a8_0102)));
    assert!(is_loopback(IpAddress::V6(1)));
    assert!(!is_loopback(IpAddress::V6(0)));
}

#[test]
fn gathering_keeps_non_loopback_addresses_in_order() {
    let lan = IpAddress::V4(0xc0a8_0102);
    let lo = IpAddress::V4(0x7f00_0001);
    let v6 = IpAddress::V6(0xfe80_0000_0000_0000_0000_0000_0000_0001);
    let lo6 = IpAddress::V6(1);
    let g = gather_addresses(Some(vec![lo, lan, lo6, v6])).unwrap();
    assert_eq!(g, vec![lan, v6]);
    assert!(ip_allowed(&g, lan));
    assert!(ip_allowed(&g, v6));
    assert!(!ip_allowed(&g, lo));
    assert!(!ip_allowed(&g, IpAddress::V4(0x0a00_0001)));
}

#[test]
fn no_gathering_restriction_without_usable_interfaces() {
    assert!(gather_addresses(None).is_none());
    assert!(gather_addresses(Some(vec![])).is_none());
    assert!(gather_addresses(Some(vec![IpAddress::V4(0x7f00_0001), IpAddress::V6(1)])).is_none());
}

#[test]
fn close_joins_only_a_worker_that_took_the_message() {
    let p = close_plan(true, true, true);
    assert!(p.join_worker && p.delete_resource);
    let p = close_plan(false, true, false);
    assert!(!p.join_worker && !p.delete_resource);
    let p = close_plan(true, false, true);
    assert!(!p.join_worker && p.delete_resource);
}

#[test]
fn connect_time_counts_from_the_first_connection() {
    let mut s = StreamStats::new();
    s.on_connection_state(PeerConnectionState::Connecting, 100);
    assert_eq!(s.connected_at, None);
    s.on_connection_state(PeerConnectionState::Connected, 1_000);
    assert_eq!(s.connected_at, Some(1_000));
    s.on_connection_state(PeerConnectionState::Disconnected, 2_000);
    s.on_connection_state(PeerConnectionState::Connected, 3_000);
    assert_eq!(s.connected_at, Some(1_000));
    assert_eq!(s.connect_time(1_501_000), 1_500_000);
    assert_eq!(connect_time_ms(s.connected_for), 1);
}

#[test]
fn a_run_calls_the_callback_once_after_the_loop() {
    let events = vec![
        WorkerEvent::StatsReport(Some(10)),
        WorkerEvent::Received(Some(Message::Packet(packet(true))), PeerConnectionState::Connecting),
        WorkerEvent::Received(Some(connect_failed_message()), PeerConnectionState::Connecting),
        WorkerEvent::Received(Some(Message::Packet(packet(false))), PeerConnectionState::Connected),
        WorkerEvent::Received(Some(Message::Close), PeerConnectionState::Connected),
    ];
    let mut rounds_run = 0;
    let mut stopped = None;
    for event in events {
        rounds_run += 1;
        let stop = match worker_step(event) {
            WorkerAction::WriteAudio(_) | WorkerAction::WriteVideo(_) => write_outcome(Ok(())),
            WorkerAction::Stop(r) => Some(r),
            _ => None,
        };
        if let Some(r) = stop {
            stopped = Some(r);
            break;
        }
    }
    assert_eq!(rounds_run, 3);
    let calls: Vec<OutputStreamError> = error_for_callback(stopped.unwrap(), true).into_iter().collect();
    assert_eq!(calls.len(), 1);
    assert!(matches!(calls[0], OutputStreamError::ConnectFailed));
    assert_eq!(OBSWebRTCWHIPOutputError::from(OutputStreamError::ConnectFailed), OBSWebRTCWHIPOutputError::ConnectFailed);
}
