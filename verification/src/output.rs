//! The output stream: the packets and messages that reach its worker, the
//! decisions that the worker takes on each of them, the stream's
//! statistics, and the choice of the local addresses that ICE may gather.
use std::time::Duration;
use vstd::prelude::*;

verus! {

/// `webrtc::Error`, the error of the WebRTC stack; carried opaquely.
#[verifier::external_type_specification]
#[verifier::external_body]
pub struct ExWebrtcError(webrtc::Error);

/// Whether a packet holds audio or video.
#[derive(Clone, Copy, Debug, PartialEq, Eq, Structural)]
pub enum EncodedPacketType {
    Audio,
    Video,
}

/// One encoded frame from OBS, with how long it lasts.
#[derive(Debug)]
pub struct EncodedPacket {
    pub data: Vec<u8>,
    pub duration: Duration,
    pub typ: EncodedPacketType,
}

/// Errors of the output stream's worker.
#[derive(Debug)]
pub enum OutputStreamError {
    ConnectFailed,
    NetworkError,
    WriteError(webrtc::Error),
}

/// What the stream hands to its worker.
#[derive(Debug)]
pub enum Message {
    Packet(EncodedPacket),
    Error(OutputStreamError),
    Close,
}

/// Why the worker stopped.
pub enum WorkerResult {
    Error(OutputStreamError),
    Close,
}

/// The state of the peer connection (the states of WebRTC's
/// `RTCPeerConnectionState`).
#[derive(Clone, Copy, Debug, PartialEq, Eq, Structural)]
pub enum PeerConnectionState {
    Unspecified,
    New,
    Connecting,
    Connected,
    Disconnected,
    Failed,
    Closed,
}

/// What wakes the worker up: a message (`None` once every sender is gone),
/// read together with the state the peer connection is in at that moment;
/// or the periodic statistics report, with the bytes that the ICE transport
/// has sent when the report has a transport entry.
pub enum WorkerEvent {
    Received(Option<Message>, PeerConnectionState),
    StatsReport(Option<u64>),
}

/// What the worker does next.
pub enum WorkerAction {
    /// Write the packet to the audio track.
    WriteAudio(EncodedPacket),
    /// Write the packet to the video track.
    WriteVideo(EncodedPacket),
    /// Store the count of bytes sent in the statistics.
    RecordBytesSent(u64),
    /// Nothing to do; wait for the next event.
    Wait,
    /// Leave the loop, for this reason.
    Stop(WorkerResult),
}

/// Whether a packet can still go out on a connection in this state: not
/// once the connection has failed or was closed.
pub open spec fn can_send(state: PeerConnectionState) -> bool {
    state != PeerConnectionState::Failed && state != PeerConnectionState::Closed
}

/// The worker's decision on one event. A packet goes to the track of its
/// kind while the connection can send, and stops the worker with a network
/// error once it cannot. An error message stops the worker with that error;
/// a close message, or the end of the channel, stops it cleanly. A
/// statistics report never stops it: it records the transport's byte count
/// when the report has one.
pub open spec fn worker_decision(event: WorkerEvent) -> WorkerAction {
    match event {
        WorkerEvent::Received(None, _) => WorkerAction::Stop(WorkerResult::Close),
        WorkerEvent::Received(Some(Message::Close), _) => WorkerAction::Stop(WorkerResult::Close),
        WorkerEvent::Received(Some(Message::Error(e)), _) => WorkerAction::Stop(
            WorkerResult::Error(e),
        ),
        WorkerEvent::Received(Some(Message::Packet(p)), state) => if !can_send(state) {
            WorkerAction::Stop(WorkerResult::Error(OutputStreamError::NetworkError))
        } else if p.typ == EncodedPacketType::Audio {
            WorkerAction::WriteAudio(p)
        } else {
            WorkerAction::WriteVideo(p)
        },
        WorkerEvent::StatsReport(Some(bytes)) => WorkerAction::RecordBytesSent(bytes),
        WorkerEvent::StatsReport(None) => WorkerAction::Wait,
    }
}

/// The worker's decision on one event (see `worker_decision`).
pub fn worker_step(event: WorkerEvent) -> (action: WorkerAction)
    ensures
        action == worker_decision(event),
{
    match event {
        WorkerEvent::Received(message, state) => match message {
            Some(Message::Packet(packet)) => {
                if state == PeerConnectionState::Failed || state == PeerConnectionState::Closed {
                    WorkerAction::Stop(WorkerResult::Error(OutputStreamError::NetworkError))
                } else {
                    match packet.typ {
                        EncodedPacketType::Audio => WorkerAction::WriteAudio(packet),
                        EncodedPacketType::Video => WorkerAction::WriteVideo(packet),
                    }
                }
            },
            Some(Message::Error(e)) => WorkerAction::Stop(WorkerResult::Error(e)),
            Some(Message::Close) => WorkerAction::Stop(WorkerResult::Close),
            None => WorkerAction::Stop(WorkerResult::Close),
        },
        WorkerEvent::StatsReport(bytes) => match bytes {
            Some(b) => WorkerAction::RecordBytesSent(b),
            None => WorkerAction::Wait,
        },
    }
}

/// What follows the write of a packet to a track: a failed write stops the
/// worker with a write error carrying the WebRTC error; after a successful
/// one the worker goes on (`None`).
pub open spec fn write_stop(result: Result<(), webrtc::Error>) -> Option<WorkerResult> {
    match result {
        Ok(()) => None,
        Err(e) => Some(WorkerResult::Error(OutputStreamError::WriteError(e))),
    }
}

/// What follows the write of a packet (see `write_stop`).
pub fn write_outcome(result: Result<(), webrtc::Error>) -> (r: Option<WorkerResult>)
    ensures
        r == write_stop(result),
{
    match result {
        Ok(()) => None,
        Err(e) => Some(WorkerResult::Error(OutputStreamError::WriteError(e))),
    }
}

/// The error handed to the error callback when the worker has stopped: the
/// error that stopped it, if there is a callback to take it; nothing when
/// the worker was closed.
pub open spec fn callback_error(result: WorkerResult, has_callback: bool) -> Option<
    OutputStreamError,
> {
    match result {
        WorkerResult::Error(e) => if has_callback {
            Some(e)
        } else {
            None
        },
        WorkerResult::Close => None,
    }
}

/// The error for the error callback (see `callback_error`).
pub fn error_for_callback(result: WorkerResult, has_callback: bool) -> (r: Option<
    OutputStreamError,
>)
    ensures
        r == callback_error(result, has_callback),
{
    match result {
        WorkerResult::Error(e) => if has_callback {
            Some(e)
        } else {
            None
        },
        WorkerResult::Close => None,
    }
}

/// The message that a failed connection attempt sends to the worker.
pub fn connect_failed_message() -> (m: Message)
    ensures
        m == Message::Error(OutputStreamError::ConnectFailed),
{
    Message::Error(OutputStreamError::ConnectFailed)
}

/// What closing the stream does besides closing the peer connection.
pub struct ClosePlan {
    /// Wait for the worker thread to finish.
    pub join_worker: bool,
    /// Delete the WHIP session resource on the server.
    pub delete_resource: bool,
}

/// The plan for closing the stream: the worker thread is waited for only
/// when it took the close message and is still held (when it could not take
/// the message it is gone or is stopping on an error already); the WHIP
/// resource is deleted whenever there is one.
pub fn close_plan(close_sent: bool, worker_held: bool, resource_held: bool) -> (p: ClosePlan)
    ensures
        p.join_worker == (close_sent && worker_held),
        p.delete_resource == resource_held,
{
    ClosePlan { join_worker: close_sent && worker_held, delete_resource: resource_held }
}

/// The packet that OBS hands over: audio when `is_audio`, else video.
pub fn packet_from_obs(data: Vec<u8>, duration: Duration, is_audio: bool) -> (p: EncodedPacket)
    ensures
        p.data@ == data@,
        p.duration == duration,
        p.typ == (if is_audio {
            EncodedPacketType::Audio
        } else {
            EncodedPacketType::Video
        }),
{
    EncodedPacket {
        data,
        duration,
        typ: if is_audio {
            EncodedPacketType::Audio
        } else {
            EncodedPacketType::Video
        },
    }
}

/// The statistics of a stream. Times are in nanoseconds: `connected_at` on
/// a clock of the caller's choosing, `connected_for` as a duration.
pub struct StreamStats {
    pub bytes_sent: u64,
    pub dropped_frames: i32,
    pub connected_at: Option<u64>,
    pub connected_for: u64,
}

impl StreamStats {
    /// Statistics of a stream that has sent nothing and never connected.
    pub fn new() -> (s: StreamStats)
        ensures
            s.bytes_sent == 0,
            s.dropped_frames == 0,
            s.connected_at is None,
            s.connected_for == 0,
    {
        StreamStats { bytes_sent: 0, dropped_frames: 0, connected_at: None, connected_for: 0 }
    }

    /// Stores the transport's count of bytes sent; nothing else changes.
    pub fn record_bytes_sent(&mut self, bytes: u64)
        ensures
            final(self).bytes_sent == bytes,
            final(self).dropped_frames == old(self).dropped_frames,
            final(self).connected_at == old(self).connected_at,
            final(self).connected_for == old(self).connected_for,
    {
        self.bytes_sent = bytes;
    }

    /// The bytes sent so far.
    pub fn bytes_sent(&self) -> (r: u64)
        ensures
            r == self.bytes_sent,
    {
        self.bytes_sent
    }

    /// The frames dropped so far.
    pub fn dropped_frames(&self) -> (r: i32)
        ensures
            r == self.dropped_frames,
    {
        self.dropped_frames
    }

    /// Follows the peer connection's state at time `now`: the first time
    /// the connection is established, that moment is kept as its start;
    /// nothing else changes.
    pub fn on_connection_state(&mut self, state: PeerConnectionState, now: u64)
        ensures
            final(self).connected_at == if state == PeerConnectionState::Connected
                && old(self).connected_at is None {
                Some(now)
            } else {
                old(self).connected_at
            },
            final(self).bytes_sent == old(self).bytes_sent,
            final(self).dropped_frames == old(self).dropped_frames,
            final(self).connected_for == old(self).connected_for,
    {
        if state == PeerConnectionState::Connected && self.connected_at.is_none() {
            self.connected_at = Some(now);
        }
    }

    /// How long the stream has been connected, at time `now`: when the
    /// connection's start is known, the time since then (zero if `now` is
    /// before it) is stored and returned; otherwise the duration stored
    /// last is returned unchanged.
    pub fn connect_time(&mut self, now: u64) -> (r: u64)
        ensures
            final(self).bytes_sent == old(self).bytes_sent,
            final(self).dropped_frames == old(self).dropped_frames,
            final(self).connected_at == old(self).connected_at,
            final(self).connected_for == match old(self).connected_at {
                Some(t) => if now >= t {
                    (now - t) as u64
                } else {
                    0
                },
                None => old(self).connected_for,
            },
            r == final(self).connected_for,
    {
        if let Some(t) = self.connected_at {
            self.connected_for = if now >= t {
                now - t
            } else {
                0
            };
        }
        self.connected_for
    }
}

/// An IP address: version 4 as the 32-bit number of its four octets (the
/// first octet most significant), version 6 as the 128-bit number of its
/// sixteen octets.
#[derive(Clone, Copy, Debug, PartialEq, Eq, Structural)]
pub enum IpAddress {
    V4(u32),
    V6(u128),
}

/// Whether an interface address is a loopback one: an IPv4 address whose
/// first octet is 127, or the IPv6 address `::1`.
pub open spec fn loopback(ip: IpAddress) -> bool {
    match ip {
        IpAddress::V4(a) => a / 0x100_0000 == 127,
        IpAddress::V6(a) => a == 1,
    }
}

/// Whether `ip` is a loopback address.
pub fn is_loopback(ip: IpAddress) -> (r: bool)
    ensures
        r == loopback(ip),
{
    match ip {
        IpAddress::V4(a) => a / 0x100_0000 == 127,
        IpAddress::V6(a) => a == 1,
    }
}

/// The addresses that are kept for gathering: the interface addresses that
/// are not loopback ones, in order.
pub open spec fn gatherable(interfaces: Seq<IpAddress>) -> Seq<IpAddress> {
    interfaces.filter(|ip: IpAddress| !loopback(ip))
}

/// The addresses ICE may gather candidates on, from the addresses of the
/// host's interfaces (`None` when they could not be listed): the
/// non-loopback ones, in order; `None` when there is none, in which case
/// gathering is not restricted at all, since the platform may not expose
/// enough about its interfaces.
pub fn gather_addresses(interfaces: Option<Vec<IpAddress>>) -> (r: Option<Vec<IpAddress>>)
    ensures
        match interfaces {
            None => r is None,
            Some(all) => if gatherable(all@).len() == 0 {
                r is None
            } else {
                r matches Some(g) && g@ == gatherable(all@)
            },
        },
{
    let all = match interfaces {
        Some(all) => all,
        None => {
            return None;
        },
    };
    let mut kept: Vec<IpAddress> = Vec::new();
    let mut i: usize = 0;
    while i < all.len()
        invariant
            i <= all@.len(),
            kept@ == gatherable(all@.take(i as int)),
        decreases all@.len() - i,
    {
        let ip = all[i];
        proof {
            assert(all@.take(i + 1).drop_last() =~= all@.take(i as int));
            assert(all@.take(i + 1).last() == ip);
            reveal_with_fuel(Seq::<_>::filter, 1);
        }
        if !is_loopback(ip) {
            kept.push(ip);
        }
        i = i + 1;
    }
    assert(all@.take(all@.len() as int) =~= all@);
    if kept.len() == 0 {
        None
    } else {
        Some(kept)
    }
}

/// Whether ICE may use the local address `ip`: whether it is one of the
/// gathering addresses.
pub fn ip_allowed(gather: &Vec<IpAddress>, ip: IpAddress) -> (r: bool)
    ensures
        r == gather@.contains(ip),
{
    let mut i: usize = 0;
    while i < gather.len()
        invariant
            i <= gather@.len(),
            forall|k: int| 0 <= k < i ==> gather@[k] != ip,
        decreases gather@.len() - i,
    {
        if gather[i] == ip {
            return true;
        }
        i = i + 1;
    }
    false
}

/// Law: with gathering restricted, ICE may use an address exactly when it
/// is the address of one of the host's interfaces and not a loopback one.
pub proof fn lemma_gathering_filter(interfaces: Seq<IpAddress>, ip: IpAddress)
    ensures
        gatherable(interfaces).contains(ip) <==> (interfaces.contains(ip) && !loopback(ip)),
{
    let pred = |a: IpAddress| !loopback(a);
    assert(gatherable(interfaces) == interfaces.filter(pred));
    if interfaces.contains(ip) && !loopback(ip) {
        let k = choose|k: int| 0 <= k < interfaces.len() && interfaces[k] == ip;
        interfaces.lemma_filter_contains(pred, k);
    }
    if gatherable(interfaces).contains(ip) {
        interfaces.lemma_filter_contains_rev(pred, ip);
        let k = choose|k: int|
            0 <= k < gatherable(interfaces).len() && gatherable(interfaces)[k] == ip;
        interfaces.lemma_filter_pred(pred, k);
    }
}

/// Law: a close message, or the end of the channel, stops the worker
/// cleanly whatever state the connection is in; and a clean stop hands
/// nothing to the error callback.
pub proof fn lemma_close_stops_cleanly(state: PeerConnectionState, has_callback: bool)
    ensures
        worker_decision(WorkerEvent::Received(Some(Message::Close), state)) == WorkerAction::Stop(
            WorkerResult::Close,
        ),
        worker_decision(WorkerEvent::Received(None, state)) == WorkerAction::Stop(
            WorkerResult::Close,
        ),
        callback_error(WorkerResult::Close, has_callback) is None,
{
}

/// Law: statistics reports never stop the worker.
pub proof fn lemma_stats_never_stop(bytes: Option<u64>)
    ensures
        !(worker_decision(WorkerEvent::StatsReport(bytes)) is Stop),
{
}

/// Law: a packet is written only while the connection can send, to the
/// track of its own kind, and unchanged; on a failed or closed connection
/// it stops the worker, and the callback, if any, is told of a network
/// error.
pub proof fn lemma_packets_routed(packet: EncodedPacket, state: PeerConnectionState)
    ensures
        match worker_decision(WorkerEvent::Received(Some(Message::Packet(packet)), state)) {
            WorkerAction::WriteAudio(p) => can_send(state) && p == packet && packet.typ
                == EncodedPacketType::Audio,
            WorkerAction::WriteVideo(p) => can_send(state) && p == packet && packet.typ
                == EncodedPacketType::Video,
            WorkerAction::Stop(r) => !can_send(state) && callback_error(r, true) == Some(
                OutputStreamError::NetworkError,
            ),
            _ => false,
        },
        worker_decision(WorkerEvent::Received(Some(Message::Packet(packet)), state)) is Stop <==> (
        state == PeerConnectionState::Failed || state == PeerConnectionState::Closed),
{
}

/// One round of the worker's loop: the event that woke it up, and what the
/// write of a packet returned when the event led to one (ignored otherwise).
/// A round ends the loop exactly when `worker_step`, then `write_outcome`
/// for a write, give a result to stop with.
pub struct WorkerRound {
    pub event: WorkerEvent,
    pub write: Result<(), webrtc::Error>,
}

/// Whether a round ends the worker's loop, and why: a stopping decision, or
/// a failed write of the packet the round was to write.
pub open spec fn round_stop(round: WorkerRound) -> Option<WorkerResult> {
    match worker_decision(round.event) {
        WorkerAction::WriteAudio(_) => write_stop(round.write),
        WorkerAction::WriteVideo(_) => write_stop(round.write),
        WorkerAction::Stop(r) => Some(r),
        _ => None,
    }
}

/// Where a run of rounds ends the loop: the position of the first round
/// that stops it and why; none while it is still running.
pub open spec fn run_stop(rounds: Seq<WorkerRound>) -> Option<(int, WorkerResult)>
    decreases rounds.len(),
{
    if rounds.len() == 0 {
        None
    } else {
        match round_stop(rounds[0]) {
            Some(r) => Some((0, r)),
            None => match run_stop(rounds.drop_first()) {
                Some((k, r)) => Some((k + 1, r)),
                None => None,
            },
        }
    }
}

/// Whether the worker still reads messages after the first `n` rounds of a
/// run: none of them has ended its loop. Once the loop has ended the worker
/// drops its end of the channel and returns.
pub open spec fn still_running(rounds: Seq<WorkerRound>, n: int) -> bool {
    run_stop(rounds.subrange(0, n)) is None
}

/// The calls of the error callback over the worker's whole life: made once
/// the loop has ended, with the error that ended it, when there is a
/// callback and the loop did not end cleanly; none otherwise.
pub open spec fn run_callbacks(rounds: Seq<WorkerRound>, has_callback: bool) -> Seq<
    OutputStreamError,
> {
    match run_stop(rounds) {
        Some((_, r)) => match callback_error(r, has_callback) {
            Some(e) => seq![e],
            None => Seq::empty(),
        },
        None => Seq::empty(),
    }
}

proof fn lemma_run_stop_position(rounds: Seq<WorkerRound>)
    ensures
        run_stop(rounds) matches Some((k, r)) ==> 0 <= k < rounds.len() && round_stop(rounds[k])
            == Some(r) && forall|j: int| 0 <= j < k ==> #[trigger] round_stop(rounds[j]) is None,
        run_stop(rounds) is None ==> forall|j: int|
            0 <= j < rounds.len() ==> #[trigger] round_stop(rounds[j]) is None,
    decreases rounds.len(),
{
    if rounds.len() > 0 {
        lemma_run_stop_position(rounds.drop_first());
        assert forall|j: int| 1 <= j < rounds.len() implies rounds[j] == rounds.drop_first()[j
            - 1] by {}
    }
}

/// The first round that ends the loop, found from the rounds themselves.
proof fn lemma_run_stop_at(rounds: Seq<WorkerRound>, k: int)
    requires
        0 <= k < rounds.len(),
        round_stop(rounds[k]) is Some,
        forall|j: int| 0 <= j < k ==> #[trigger] round_stop(rounds[j]) is None,
    ensures
        run_stop(rounds) == Some((k, round_stop(rounds[k]).unwrap())),
    decreases k,
{
    if k > 0 {
        let rest = rounds.drop_first();
        assert forall|j: int| 0 <= j < k - 1 implies #[trigger] round_stop(rest[j]) is None by {
            assert(rest[j] == rounds[j + 1]);
        }
        lemma_run_stop_at(rest, k - 1);
        assert(round_stop(rounds[0]) is None);
    }
}

/// Law: over the worker's whole life the error callback is called at most
/// once, and only after the loop has ended; and once the loop has ended
/// the worker reads no more messages.
pub proof fn lemma_callback_at_most_once(rounds: Seq<WorkerRound>, has_callback: bool, n: int)
    requires
        0 <= n <= rounds.len(),
    ensures
        run_callbacks(rounds, has_callback).len() <= 1,
        run_callbacks(rounds, has_callback).len() == 1 ==> run_stop(rounds) is Some,
        run_stop(rounds) matches Some((k, _)) ==> (still_running(rounds, n) <==> n <= k),
{
    lemma_run_stop_position(rounds);
    if let Some((k, r)) = run_stop(rounds) {
        let prefix = rounds.subrange(0, n);
        lemma_run_stop_position(prefix);
        if n <= k {
            assert forall|j: int| 0 <= j < n implies #[trigger] round_stop(prefix[j]) is None by {
                assert(prefix[j] == rounds[j]);
            }
            if run_stop(prefix) is Some {
                let (k2, r2) = run_stop(prefix).unwrap();
                assert(round_stop(prefix[k2]) is None);
            }
        } else {
            assert(prefix[k] == rounds[k]);
            assert forall|j: int| 0 <= j < k implies #[trigger] round_stop(prefix[j]) is None by {
                assert(prefix[j] == rounds[j]);
            }
            lemma_run_stop_at(prefix, k);
        }
    }
}

/// Law: a close message, or the end of the channel, ends the loop at that
/// round when no earlier round ended it, and then the callback is never
/// called; statistics rounds never end the loop.
pub proof fn lemma_close_ends_run_quietly(rounds: Seq<WorkerRound>, k: int, has_callback: bool)
    requires
        0 <= k < rounds.len(),
        rounds[k].event matches WorkerEvent::Received(m, _) && (m is None || m matches Some(
            Message::Close,
        )),
        forall|j: int| 0 <= j < k ==> #[trigger] round_stop(rounds[j]) is None,
    ensures
        run_stop(rounds) == Some((k, WorkerResult::Close)),
        run_callbacks(rounds, has_callback) == Seq::<OutputStreamError>::empty(),
        forall|round: WorkerRound| round.event is StatsReport ==> round_stop(round) is None,
{
    lemma_run_stop_at(rounds, k);
}

/// Law: when a failed connection attempt's message is the first thing that
/// ends the loop, the error callback is called exactly once, with
/// `ConnectFailed`, and the worker reads no message after that round (so
/// every later packet is refused).
pub proof fn lemma_connect_failure_reported_once(rounds: Seq<WorkerRound>, k: int, n: int)
    requires
        0 <= k < rounds.len(),
        rounds[k].event matches WorkerEvent::Received(m, _) && m matches Some(
            Message::Error(OutputStreamError::ConnectFailed),
        ),
        forall|j: int| 0 <= j < k ==> #[trigger] round_stop(rounds[j]) is None,
        k < n <= rounds.len(),
    ensures
        run_callbacks(rounds, true) == seq![OutputStreamError::ConnectFailed],
        !still_running(rounds, n),
{
    lemma_run_stop_at(rounds, k);
    lemma_callback_at_most_once(rounds, true, n);
}

/// Law: an IPv4 address is a loopback one exactly when its first octet is
/// 127 (the network 127.0.0.0/8), whatever its other three octets.
pub proof fn lemma_ipv4_loopback_is_127_network(a: u8, b: u8, c: u8, d: u8)
    ensures
        loopback(
            IpAddress::V4(
                ((a as int) * 0x100_0000 + (b as int) * 0x1_0000 + (c as int) * 0x100
                    + d as int) as u32,
            ),
        ) <==> a == 127,
{
    let x = ((a as int) * 0x100_0000 + (b as int) * 0x1_0000 + (c as int) * 0x100
        + d as int) as u32;
    let rest = (b as int) * 0x1_0000 + (c as int) * 0x100 + d as int;
    assert(0 <= rest < 0x100_0000);
    assert(x as int == (a as int) * 0x100_0000 + rest);
    assert(((a as int) * 0x100_0000 + rest) / 0x100_0000 == a as int) by (nonlinear_arith)
        requires
            0 <= rest < 0x100_0000,
            0 <= a < 256,
    ;
}

/// Law: an IPv6 address is a loopback one exactly when it is `::1`.
pub proof fn lemma_ipv6_loopback_is_one(a: u128)
    ensures
        loopback(IpAddress::V6(a)) <==> a == 1,
{
}

/// Law: whenever the worker stops on an error and there is a callback, the
/// callback gets that very error, whatever it is (a failed track write
/// included); without a callback nothing is handed over.
pub proof fn lemma_every_error_reaches_callback(e: OutputStreamError, r: WorkerResult)
    ensures
        callback_error(WorkerResult::Error(e), true) == Some(e),
        callback_error(r, false) is None,
{
}

/// Law: over a whole run, the error that ends the loop is the one the
/// callback receives; in particular a failed write of a packet, when it is
/// the first thing to end the loop, reaches the callback as a write error
/// carrying the WebRTC error.
pub proof fn lemma_run_error_reaches_callback(rounds: Seq<WorkerRound>, k: int, e: OutputStreamError)
    requires
        run_stop(rounds) == Some((k, WorkerResult::Error(e))),
    ensures
        run_callbacks(rounds, true) == seq![e],
        forall|x: webrtc::Error|
            #![trigger write_stop(Err(x))]
            write_stop(Err(x)) == Some(WorkerResult::Error(OutputStreamError::WriteError(x))),
{
}

} // verus!
