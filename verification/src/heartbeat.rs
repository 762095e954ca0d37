//! The pings by which a dead connection is noticed. Instants are numbers of
//! nanoseconds since some moment that stays the same.
use crate::byte_order::{be_bytes_u32, u32_to_be_bytes};
use crate::control_channel_packets::{
    build_ping_request_packet, control_message, MESSAGE_ID_PING_REQUEST,
};
use crate::protos::{ProtoMessage, ProtoPacket};
use vstd::prelude::*;

verus! {

/// How long the connection has to be silent before a ping is sent.
pub const PING_INTERVAL_MS: u64 = 4000;

/// How long the phone has to answer a ping.
pub const PING_MAX_RTT_MS: u64 = 1800;

pub const NANOSECONDS_PER_MILLISECOND: u64 = 1_000_000;

#[derive(Debug, Clone, Copy, PartialEq, Eq, Structural)]
pub enum HeartbeatState {
    WaitingUntilSendingNextPingRequest,
    WaitingForPingResponse,
}

/// When the next ping is due, or the answer to the last one.
#[derive(Debug, Clone, Copy, PartialEq, Eq, Structural)]
pub struct Heartbeater {
    pub state: HeartbeatState,
    /// How many pings have been answered.
    pub counter: u32,
    /// When to act next, unless something happens before.
    pub next_timeout: u64,
}

/// Whether there is an instant `milliseconds` after `now`.
pub open spec fn can_wait(now: u64, milliseconds: u64) -> bool {
    now + milliseconds * NANOSECONDS_PER_MILLISECOND <= u64::MAX
}

/// The instant `milliseconds` after `now`.
pub open spec fn instant_after(now: u64, milliseconds: u64) -> u64 {
    (now + milliseconds * NANOSECONDS_PER_MILLISECOND) as u64
}

/// Whether a packet is the ping with the given number.
pub open spec fn is_ping(packet: ProtoPacket, counter: u32, timestamp: i64) -> bool {
    &&& packet.message matches ProtoMessage::PingRequest(ping)
    &&& packet == control_message(MESSAGE_ID_PING_REQUEST, packet.message)
    &&& ping.timestamp == timestamp
    &&& ping.bug_report == Some(false)
    &&& ping.data matches Some(data)
    &&& data@ == be_bytes_u32(counter)
}

/// What the elapsing of the timer comes to: a ping, or an error where the answer
/// to the last one has not come in time.
pub open spec fn timer_elapsed(
    before: Heartbeater,
    now: u64,
    timestamp: i64,
    result: Result<ProtoPacket, ()>,
    after: Heartbeater,
) -> bool {
    match before.state {
        HeartbeatState::WaitingUntilSendingNextPingRequest => {
            &&& after == before.ping_sent(now)
            &&& result matches Ok(packet)
            &&& is_ping(packet, before.counter, timestamp)
        },
        HeartbeatState::WaitingForPingResponse => {
            &&& after == before
            &&& result is Err
        },
    }
}

impl Heartbeater {
    /// The state after the connection has been established.
    pub open spec fn started(now: u64) -> Heartbeater {
        Heartbeater {
            state: HeartbeatState::WaitingUntilSendingNextPingRequest,
            counter: 0,
            next_timeout: instant_after(now, PING_INTERVAL_MS),
        }
    }

    /// The state after a ping has been sent.
    pub open spec fn ping_sent(self, now: u64) -> Heartbeater {
        Heartbeater {
            state: HeartbeatState::WaitingForPingResponse,
            counter: self.counter,
            next_timeout: instant_after(now, PING_MAX_RTT_MS),
        }
    }

    /// The state after the answer to a ping has come, if one was due.
    pub open spec fn ping_answered(self, now: u64) -> Heartbeater {
        match self.state {
            HeartbeatState::WaitingForPingResponse => Heartbeater {
                state: HeartbeatState::WaitingUntilSendingNextPingRequest,
                counter: (self.counter + 1) as u32,
                next_timeout: instant_after(now, PING_INTERVAL_MS),
            },
            HeartbeatState::WaitingUntilSendingNextPingRequest => self,
        }
    }

    /// The state after any packet has come: the next ping is put off, while
    /// the time for an answer goes on running.
    pub open spec fn packet_seen(self, now: u64) -> Heartbeater {
        match self.state {
            HeartbeatState::WaitingUntilSendingNextPingRequest => Heartbeater {
                next_timeout: instant_after(now, PING_INTERVAL_MS),
                ..self
            },
            HeartbeatState::WaitingForPingResponse => self,
        }
    }

    /// Whether one more answer can be counted.
    pub open spec fn can_count(self) -> bool {
        self.state is WaitingForPingResponse ==> self.counter < u32::MAX
    }

    pub fn start(now: u64) -> (heartbeat: Heartbeater)
        requires
            can_wait(now, PING_INTERVAL_MS),
        ensures
            heartbeat == Heartbeater::started(now),
    {
        Heartbeater {
            state: HeartbeatState::WaitingUntilSendingNextPingRequest,
            counter: 0,
            next_timeout: Self::next_ping_request_instant(now),
        }
    }

    /// Gives the ping to send, where one is due. That the answer to a ping has
    /// not come in time is an error.
    pub fn handle_timer_elapsed(&mut self, now: u64, timestamp: i64) -> (result: Result<
        ProtoPacket,
        (),
    >)
        requires
            old(self).state is WaitingUntilSendingNextPingRequest ==> can_wait(
                now,
                PING_MAX_RTT_MS,
            ),
        ensures
            timer_elapsed(*old(self), now, timestamp, result, *final(self)),
    {
        match self.state {
            HeartbeatState::WaitingUntilSendingNextPingRequest => {
                let number: [u8; 4] = u32_to_be_bytes(self.counter);
                let mut data: Vec<u8> = Vec::new();
                data.extend_from_slice(number.as_slice());
                assert(data@ =~= be_bytes_u32(self.counter));
                let ping_packet = build_ping_request_packet(timestamp, data);
                self.state = HeartbeatState::WaitingForPingResponse;
                self.next_timeout = now + PING_MAX_RTT_MS * NANOSECONDS_PER_MILLISECOND;
                Ok(ping_packet)
            },
            HeartbeatState::WaitingForPingResponse => Err(()),
        }
    }

    /// Puts off the next ping, since a packet has come.
    pub fn restart_ping_countdown_timer(&mut self, now: u64)
        requires
            old(self).state is WaitingUntilSendingNextPingRequest ==> can_wait(
                now,
                PING_INTERVAL_MS,
            ),
        ensures
            *final(self) == old(self).packet_seen(now),
    {
        match self.state {
            HeartbeatState::WaitingUntilSendingNextPingRequest => {
                self.next_timeout = Self::next_ping_request_instant(now);
            },
            HeartbeatState::WaitingForPingResponse => {},
        }
    }

    /// Takes in that the phone has answered a ping.
    pub fn handle_heartbeat_ping_response(&mut self, now: u64)
        requires
            old(self).state is WaitingForPingResponse ==> can_wait(now, PING_INTERVAL_MS),
            old(self).can_count(),
        ensures
            *final(self) == old(self).ping_answered(now),
    {
        match self.state {
            HeartbeatState::WaitingForPingResponse => {
                self.state = HeartbeatState::WaitingUntilSendingNextPingRequest;
                self.counter = self.counter + 1;
                self.next_timeout = Self::next_ping_request_instant(now);
            },
            HeartbeatState::WaitingUntilSendingNextPingRequest => {},
        }
    }

    fn next_ping_request_instant(now: u64) -> (instant: u64)
        requires
            can_wait(now, PING_INTERVAL_MS),
        ensures
            instant == instant_after(now, PING_INTERVAL_MS),
    {
        now + PING_INTERVAL_MS * NANOSECONDS_PER_MILLISECOND
    }
}

/// While the answer to a ping is due, nothing but that answer puts off the
/// moment at which the connection is given up.
pub proof fn only_an_answer_saves_the_connection(
    heartbeat: Heartbeater,
    sent: u64,
    packets: Seq<u64>,
)
    ensures
        heartbeat_after_packets(heartbeat.ping_sent(sent), packets) == heartbeat.ping_sent(sent),
{
    lemma_packets_change_nothing(heartbeat.ping_sent(sent), packets);
}

/// The state after packets have come at the given instants.
pub open spec fn heartbeat_after_packets(heartbeat: Heartbeater, packets: Seq<u64>) -> Heartbeater
    decreases packets.len(),
{
    if packets.len() == 0 {
        heartbeat
    } else {
        heartbeat_after_packets(heartbeat, packets.drop_last()).packet_seen(packets.last())
    }
}

/// An answer that is due is counted once, and the next ping is due an interval
/// later; an answer that nobody waits for changes nothing, such as a second one to
/// the same ping.
pub proof fn each_answer_counts_once(heartbeat: Heartbeater, answered: u64, again: u64)
    requires
        heartbeat.can_count(),
    ensures
        ({
            let after = heartbeat.ping_answered(answered);
            &&& if heartbeat.state is WaitingForPingResponse {
                &&& after.state is WaitingUntilSendingNextPingRequest
                &&& after.counter == heartbeat.counter + 1
                &&& after.next_timeout == instant_after(answered, PING_INTERVAL_MS)
            } else {
                after == heartbeat
            }
            &&& after.ping_answered(again) == after
        }),
{
}

/// Where the timer elapses twice without an answer in between, whatever else has
/// come, the second time is an error and changes nothing.
pub proof fn a_second_timeout_is_an_error(
    before: Heartbeater,
    first: (u64, i64, Result<ProtoPacket, ()>),
    between: Heartbeater,
    packets: Seq<u64>,
    second: (u64, i64, Result<ProtoPacket, ()>),
    after: Heartbeater,
)
    requires
        timer_elapsed(before, first.0, first.1, first.2, between),
        timer_elapsed(
            heartbeat_after_packets(between, packets),
            second.0,
            second.1,
            second.2,
            after,
        ),
    ensures
        second.2 is Err,
        after == between,
{
    lemma_packets_change_nothing(between, packets);
}

/// While the answer to a ping is due, packets change nothing.
proof fn lemma_packets_change_nothing(heartbeat: Heartbeater, packets: Seq<u64>)
    requires
        heartbeat.state is WaitingForPingResponse,
    ensures
        heartbeat_after_packets(heartbeat, packets) == heartbeat,
    decreases packets.len(),
{
    if packets.len() > 0 {
        lemma_packets_change_nothing(heartbeat, packets.drop_last());
    }
}

/// The times of the pings. The first one is due 4 seconds after the connection has
/// been established; the answer to one 1.8 seconds after it was sent; the next one
/// 4 seconds after that answer, and 4 seconds after any packet that comes while no
/// answer is due.
pub proof fn pings_come_in_their_time(heartbeat: Heartbeater, now: u64)
    requires
        now + 4_000_000_000 <= u64::MAX,
    ensures
        Heartbeater::started(now).next_timeout == now + 4_000_000_000,
        Heartbeater::started(now).counter == 0,
        Heartbeater::started(now).state is WaitingUntilSendingNextPingRequest,
        heartbeat.ping_sent(now).next_timeout == now + 1_800_000_000,
        heartbeat.ping_sent(now).counter == heartbeat.counter,
        heartbeat.ping_sent(now).state is WaitingForPingResponse,
        heartbeat.state is WaitingForPingResponse ==> {
            &&& heartbeat.ping_answered(now).next_timeout == now + 4_000_000_000
            &&& heartbeat.packet_seen(now) == heartbeat
        },
        heartbeat.state is WaitingUntilSendingNextPingRequest ==> {
            &&& heartbeat.packet_seen(now).next_timeout == now + 4_000_000_000
            &&& heartbeat.packet_seen(now).counter == heartbeat.counter
            &&& heartbeat.packet_seen(now).state == heartbeat.state
            &&& heartbeat.ping_answered(now) == heartbeat
        },
{
}

/// When the timer elapses while no answer is due, a ping is sent, in the clear as
/// message 11 on channel 0. It carries the date and, as four bytes with the most
/// significant first, how many pings have been answered.
pub proof fn a_ping_carries_its_number(
    before: Heartbeater,
    now: u64,
    timestamp: i64,
    result: Result<ProtoPacket, ()>,
    after: Heartbeater,
)
    requires
        timer_elapsed(before, now, timestamp, result, after),
    ensures
        result is Ok <==> before.state is WaitingUntilSendingNextPingRequest,
        result matches Ok(packet) ==> {
            &&& after == before.ping_sent(now)
            &&& packet.channel_id == 0
            &&& packet.frame_type is ChannelSpecific
            &&& !packet.encrypted
            &&& packet.message_id == 11
            &&& packet.message matches ProtoMessage::PingRequest(ping)
            &&& ping.timestamp == timestamp
            &&& ping.bug_report == Some(false)
            &&& ping.data matches Some(data)
            &&& data@.len() == 4
            &&& 0x100_0000 * data@[0] + 0x1_0000 * data@[1] + 0x100 * data@[2] + data@[3]
                == before.counter
        },
        result is Err ==> after == before,
{
    crate::byte_order::the_first_byte_is_written_first(0, before.counter, 0);
}

} // verus!
