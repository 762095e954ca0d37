//! What to do with the packets of a connection, from the version request to
//! the opened channels.
use crate::control_channel_packets::{
    auth_complete, build_auth_complete_packet, build_channel_open_response,
    build_focus_notification_packet, build_handshake_packet,
    build_service_discovery_response_packet, build_version_request_packet, channel_open_response,
    focus_notification, CHANNEL_ID_CONTROL, MESSAGE_ID_AUDIO_FOCUS_NOTIFICATION_REQUEST,
    MESSAGE_ID_GET_VERSION_REQUEST, MESSAGE_ID_GET_VERSION_RESPONSE, MESSAGE_ID_HANDSHAKE,
    MESSAGE_ID_OPEN_CHANNEL_REQUEST, MESSAGE_ID_PING_RESPONSE,
    MESSAGE_ID_SERVICE_DISCOVERY_REQUEST, MESSAGE_ID_SERVICE_DISCOVERY_RESPONSE,
};
use crate::encryption::{handshake_message_processed, EncryptedConnectionManager, TlsFailure};
use crate::frame::{AAPFrame, AAPFrameType};
use crate::heartbeat::{can_wait, is_ping, Heartbeater, PING_INTERVAL_MS, PING_MAX_RTT_MS};
use crate::packet::{
    accepts_frame, is_framed, packet_of, takes_frame, Packet, PacketFramer, PacketView,
};
use crate::protos::{
    duplicate_services, service_views, AudioFocusStateType, ConnectionConfiguration, HeadUnitInfo,
    MessageStatus, PingConfiguration, ProtoMessage, ProtoPacket, Service,
    ServiceDiscoveryResponse, ServiceView,
};
use crate::usb::IncomingEvent;
use std::collections::HashMap;
use vstd::std_specs::iter::IteratorSpec;
use vstd::prelude::*;

verus! {

broadcast use vstd::std_specs::hash::group_hash_axioms;

/// The latency in milliseconds above which the phone is to report trouble.
pub const HIGH_LATENCY_THRESHOLD_MS: u32 = 100000;

#[derive(Debug, Clone, Copy, PartialEq, Eq, Structural)]
pub enum PacketRouterConnectionState {
    WaitVersionResponse,
    Handshaking,
    Established { heartbeat: Heartbeater },
}

#[derive(Debug, Clone, Copy, PartialEq, Eq, Structural)]
pub enum PacketRouterResult {
    ConnectionClosedInterally,
    ConnectionClosedExternaly,
}

/// Why a connection cannot go on.
#[derive(Debug, Clone, Copy, PartialEq, Eq, Structural)]
pub enum RouterFailure {
    /// The TLS session failed.
    Tls(TlsFailure),
    /// The TLS engine had nothing to begin the handshake with.
    NoHandshakeMessage,
    /// The phone sent a packet that has no place at this moment.
    UnexpectedPacket,
}

/// What a packet asks for.
pub enum RouterAction {
    Nothing,
    /// Send a packet.
    SendPacket(Packet),
    /// Encode a message and send its packet.
    SendMessage(ProtoPacket),
    /// Decode the request to open a channel, and handle it.
    OpenChannel(Packet),
    /// Decode the answer to a ping, and handle it.
    PingResponse(Packet),
    /// Decode the request for audio focus, and handle it.
    AudioFocusRequest(Packet),
    /// Hand the packet to the service that its channel was opened for.
    Deliver(Packet),
}

/// The answer to a request to open a channel.
pub struct OpenChannelDecision {
    /// Which service has got the channel.
    pub service_index: Option<usize>,
    pub response: ProtoPacket,
}

/// What the connection waits for.
pub enum ConnectionEvent {
    /// A packet to be sent; none where no service can send any more.
    OutgoingPacket(Option<Packet>),
    Incoming(IncomingEvent),
    /// The time of the heartbeat has come; `timestamp` is the date in
    /// milliseconds.
    TimerElapsed { timestamp: i64 },
    Cancelled,
}

/// What follows from a [`ConnectionEvent`].
pub enum ConnectionStep {
    SendFrames(Vec<AAPFrame>),
    Act(RouterAction),
    Close(PacketRouterResult),
}

/// Handles the packets of one connection.
pub struct PacketRouter {
    services: Vec<Service>,
    channel_mapping: HashMap<u8, i32>,
    framer: PacketFramer,
    connection_state: PacketRouterConnectionState,
}

/// Whether a service with this number exists.
pub open spec fn is_known_service(services: Seq<ServiceView>, service_id: i32) -> bool {
    exists|i: int| 0 <= i < services.len() && (#[trigger] services[i]).id == service_id
}

/// Whether a channel is open for the service with this number.
pub open spec fn has_channel(channels: Map<u8, i32>, service_id: i32) -> bool {
    exists|channel_id: u8| #[trigger]
        channels.dom().contains(channel_id) && channels[channel_id] == service_id
}

/// Whether no service has two channels, and all channels are open for
/// services that exist.
pub open spec fn are_channels_of(channels: Map<u8, i32>, services: Seq<ServiceView>) -> bool {
    &&& forall|a: u8, b: u8|
        #![trigger channels[a], channels[b]]
        channels.dom().contains(a) && channels.dom().contains(b) && channels[a] == channels[b]
            ==> a == b
    &&& forall|channel_id: u8| #[trigger]
        channels.dom().contains(channel_id) ==> is_known_service(services, channels[channel_id])
}

/// What is done with a packet once the connection is established.
pub open spec fn decoded(
    packet: Packet,
    channels: Map<u8, i32>,
    services: Seq<ServiceView>,
    action: RouterAction,
) -> bool {
    if packet.frame_type is Control && packet@.message_id() == MESSAGE_ID_OPEN_CHANNEL_REQUEST {
        action == RouterAction::OpenChannel(packet)
    } else if packet.channel_id == CHANNEL_ID_CONTROL {
        controlled(packet, services, action)
    } else if channels.dom().contains(packet.channel_id) {
        action == RouterAction::Deliver(packet)
    } else {
        action == RouterAction::Nothing
    }
}

/// What is done with a packet on the control channel once the connection is
/// established.
pub open spec fn controlled(
    packet: Packet,
    services: Seq<ServiceView>,
    action: RouterAction,
) -> bool {
    let message_id = packet@.message_id();
    if message_id == MESSAGE_ID_SERVICE_DISCOVERY_REQUEST {
        &&& action matches RouterAction::SendMessage(response)
        &&& is_service_discovery_response(response, services)
    } else if message_id == MESSAGE_ID_PING_RESPONSE {
        action == RouterAction::PingResponse(packet)
    } else if message_id == MESSAGE_ID_AUDIO_FOCUS_NOTIFICATION_REQUEST {
        action == RouterAction::AudioFocusRequest(packet)
    } else {
        action == RouterAction::Nothing
    }
}

/// Whether a text is set, and to `text`.
pub open spec fn says(field: Option<String>, text: Seq<char>) -> bool {
    field matches Some(string) && string@ == text
}

/// Whether a head unit introduces itself as this one.
pub open spec fn is_own_head_unit(info: HeadUnitInfo) -> bool {
    &&& says(info.make, "wiomoc"@)
    &&& says(info.model, "aa_player"@)
    &&& says(info.year, "2025"@)
    &&& says(info.vehicle_id, "12345"@)
    &&& says(info.head_unit_make, "wiomoc"@)
    &&& says(info.head_unit_model, "aa_player"@)
    &&& says(info.head_unit_software_build, "42"@)
    &&& says(info.head_unit_software_version, "1.0"@)
}

/// Whether a packet tells the phone of the services, of the pings and of the
/// head unit.
pub open spec fn is_service_discovery_response(
    packet: ProtoPacket,
    services: Seq<ServiceView>,
) -> bool {
    &&& packet.channel_id == CHANNEL_ID_CONTROL
    &&& packet.frame_type is ChannelSpecific
    &&& packet.encrypted
    &&& packet.message_id == MESSAGE_ID_SERVICE_DISCOVERY_RESPONSE
    &&& packet.message matches ProtoMessage::ServiceDiscoveryResponse(response)
    &&& service_views(response.services@) == services
    &&& says(response.display_name, "aa_player"@)
    &&& response.connection_configuration == Some(
        ConnectionConfiguration {
            ping_configuration: Some(
                PingConfiguration {
                    interval_ms: Some(PING_INTERVAL_MS as u32),
                    timeout_ms: Some(PING_MAX_RTT_MS as u32),
                    high_latency_threshold_ms: Some(HIGH_LATENCY_THRESHOLD_MS),
                },
            ),
        },
    )
    &&& response.headunit_info matches Some(info)
    &&& is_own_head_unit(info)
}

/// Whether `action` sends `message` to the phone as a handshake message.
pub open spec fn sends_handshake_message(action: RouterAction, message: Seq<u8>) -> bool {
    &&& action matches RouterAction::SendPacket(packet)
    &&& packet@ == packet_of(
        CHANNEL_ID_CONTROL,
        AAPFrameType::ChannelSpecific,
        false,
        MESSAGE_ID_HANDSHAKE,
        message,
    )
}

/// What follows from what the TLS session says when the handshake is begun.
pub open spec fn begins_handshake(
    answer: Result<Option<Vec<u8>>, TlsFailure>,
    result: Result<RouterAction, RouterFailure>,
) -> bool {
    match answer {
        Ok(Some(message)) => result matches Ok(action) && sends_handshake_message(action, message@),
        Ok(None) => result == Err::<RouterAction, _>(RouterFailure::NoHandshakeMessage),
        Err(failure) => result == Err::<RouterAction, _>(RouterFailure::Tls(failure)),
    }
}

/// What follows from what the TLS session says to a handshake message:
/// `handshaking` tells whether the handshake goes on after it.
pub open spec fn continues_handshake(
    answer: Result<Option<Vec<u8>>, TlsFailure>,
    handshaking: bool,
    now: u64,
    state: PacketRouterConnectionState,
    result: Result<RouterAction, RouterFailure>,
) -> bool {
    match answer {
        Ok(Some(message)) => {
            &&& state is Handshaking
            &&& result matches Ok(action)
            &&& sends_handshake_message(action, message@)
        },
        Ok(None) => if handshaking {
            &&& state is Handshaking
            &&& result == Ok::<_, RouterFailure>(RouterAction::Nothing)
        } else {
            &&& state == (PacketRouterConnectionState::Established {
                heartbeat: Heartbeater::started(now),
            })
            &&& result == Ok::<_, RouterFailure>(RouterAction::SendMessage(auth_complete()))
        },
        Err(failure) => {
            &&& state is Handshaking
            &&& result == Err::<RouterAction, _>(RouterFailure::Tls(failure))
        },
    }
}

/// Whether a packet has its place in a connection in the given state.
pub open spec fn accepts(state: PacketRouterConnectionState, packet: PacketView) -> bool {
    match state {
        PacketRouterConnectionState::WaitVersionResponse => {
            &&& packet.channel_id == CHANNEL_ID_CONTROL
            &&& packet.has_message_id()
            &&& packet.message_id() == MESSAGE_ID_GET_VERSION_RESPONSE
        },
        PacketRouterConnectionState::Handshaking => {
            &&& packet.channel_id == CHANNEL_ID_CONTROL
            &&& packet.has_message_id()
            &&& packet.message_id() == MESSAGE_ID_HANDSHAKE
        },
        PacketRouterConnectionState::Established { .. } => {
            packet.frame_type is Control || packet.channel_id == CHANNEL_ID_CONTROL
                ==> packet.has_message_id()
        },
    }
}

/// What the arrival of a packet does to a router.
pub open spec fn dispatched(
    before: PacketRouter,
    packet: Packet,
    now: u64,
    result: Result<RouterAction, RouterFailure>,
    after: PacketRouter,
) -> bool {
    &&& after.services() == before.services()
    &&& after.channels() == before.channels()
    &&& after.framer().pending() == before.framer().pending()
    &&& after.framer().session().is_opened_like(&before.framer().session())
    &&& match before.state() {
        PacketRouterConnectionState::WaitVersionResponse => {
            &&& after.state() is Handshaking
            &&& exists|answer: Result<Option<Vec<u8>>, TlsFailure>|
                {
                    &&& is_handshake_answer(answer, before, Seq::empty(), after)
                    &&& #[trigger] begins_handshake(answer, result)
                }
        },
        PacketRouterConnectionState::Handshaking => exists|
            answer: Result<Option<Vec<u8>>, TlsFailure>,
        |
            {
                &&& is_handshake_answer(answer, before, packet@.payload(), after)
                &&& #[trigger] continues_handshake(
                    answer,
                    after.framer().session().handshaking(),
                    now,
                    after.state(),
                    result,
                )
            },
        PacketRouterConnectionState::Established { heartbeat } => {
            &&& after.framer() == before.framer()
            &&& after.state() == (PacketRouterConnectionState::Established {
                heartbeat: heartbeat.packet_seen(now),
            })
            &&& result matches Ok(action)
            &&& decoded(packet, before.channels(), before.services(), action)
        },
    }
}

/// Whether the TLS session has been handed a handshake message, and has said
/// this to it.
pub open spec fn is_handshake_answer(
    answer: Result<Option<Vec<u8>>, TlsFailure>,
    before: PacketRouter,
    message: Seq<u8>,
    after: PacketRouter,
) -> bool {
    handshake_message_processed(
        before.framer().session(),
        message,
        answer,
        after.framer().session(),
    )
}

/// What follows from what a frame has completed.
pub open spec fn routed(
    before: PacketRouter,
    completed: Result<Option<Packet>, TlsFailure>,
    now: u64,
    result: Result<RouterAction, RouterFailure>,
    after: PacketRouter,
) -> bool {
    match completed {
        Ok(Some(packet)) => if accepts(before.state(), packet@) {
            dispatched(before, packet, now, result, after)
        } else {
            &&& after == before
            &&& result == Err::<RouterAction, _>(RouterFailure::UnexpectedPacket)
        },
        Ok(None) => {
            &&& after == before
            &&& result == Ok::<_, RouterFailure>(RouterAction::Nothing)
        },
        Err(failure) => {
            &&& after == before
            &&& result == Err::<RouterAction, _>(RouterFailure::Tls(failure))
        },
    }
}

/// What the arrival of a frame does to a router: first to its framer, and
/// then, where a packet is complete, to the rest.
pub open spec fn frame_processed(
    before: PacketRouter,
    frame: AAPFrame,
    now: u64,
    result: Result<RouterAction, RouterFailure>,
    after: PacketRouter,
) -> bool {
    exists|between: PacketRouter, completed: Result<Option<Packet>, TlsFailure>|
        {
            &&& takes_frame(before.framer(), frame, completed, between.framer())
            &&& between.services() == before.services()
            &&& between.channels() == before.channels()
            &&& between.state() == before.state()
            &&& #[trigger] routed(between, completed, now, result, after)
        }
}

/// What sending a packet does to a router, and the frames that it gives.
pub open spec fn packet_sent(
    before: PacketRouter,
    packet: Packet,
    result: Result<Vec<AAPFrame>, RouterFailure>,
    after: PacketRouter,
) -> bool {
    &&& after.services() == before.services()
    &&& after.channels() == before.channels()
    &&& after.state() == before.state()
    &&& after.framer().pending() == before.framer().pending()
    &&& after.framer().session().is_opened_like(&before.framer().session())
    &&& match result {
        Ok(frames) => is_framed(
            before.framer().session(),
            packet@,
            Ok(frames),
            after.framer().session(),
        ),
        Err(failure) => {
            &&& failure matches RouterFailure::Tls(failure)
            &&& is_framed(
                before.framer().session(),
                packet@,
                Err(failure),
                after.framer().session(),
            )
        },
    }
}

/// What an event does to a router, and what follows from it.
pub open spec fn handled(
    before: PacketRouter,
    event: ConnectionEvent,
    now: u64,
    step: Result<ConnectionStep, RouterFailure>,
    after: PacketRouter,
) -> bool {
    match event {
        ConnectionEvent::OutgoingPacket(Some(packet)) => match step {
            Ok(ConnectionStep::SendFrames(frames)) => packet_sent(
                before,
                packet,
                Ok(frames),
                after,
            ),
            Ok(_) => false,
            Err(failure) => packet_sent(before, packet, Err(failure), after),
        },
        ConnectionEvent::Incoming(IncomingEvent::Frame(frame)) => match step {
            Ok(ConnectionStep::Act(action)) => frame_processed(
                before,
                frame,
                now,
                Ok(action),
                after,
            ),
            Ok(_) => false,
            Err(failure) => frame_processed(before, frame, now, Err(failure), after),
        },
        ConnectionEvent::TimerElapsed { timestamp } => {
            &&& before.state() matches PacketRouterConnectionState::Established { heartbeat }
            &&& after.services() == before.services()
            &&& after.channels() == before.channels()
            &&& after.framer() == before.framer()
            &&& if heartbeat.state is WaitingUntilSendingNextPingRequest {
                &&& after.state() == (PacketRouterConnectionState::Established {
                    heartbeat: heartbeat.ping_sent(now),
                })
                &&& step matches Ok(ConnectionStep::Act(RouterAction::SendMessage(packet)))
                &&& is_ping(packet, heartbeat.counter, timestamp)
            } else {
                &&& after.state() == before.state()
                &&& step == Ok::<_, RouterFailure>(
                    ConnectionStep::Close(PacketRouterResult::ConnectionClosedExternaly),
                )
            }
        },
        ConnectionEvent::Incoming(_) => {
            &&& after == before
            &&& step == Ok::<_, RouterFailure>(
                ConnectionStep::Close(PacketRouterResult::ConnectionClosedExternaly),
            )
        },
        ConnectionEvent::OutgoingPacket(None) | ConnectionEvent::Cancelled => {
            &&& after == before
            &&& step == Ok::<_, RouterFailure>(
                ConnectionStep::Close(PacketRouterResult::ConnectionClosedInterally),
            )
        },
    }
}

/// Whether a connection has just been made: nothing has come yet, no channel is
/// open, and the answer to the version request is waited for.
pub open spec fn is_new_connection(
    router: PacketRouter,
    services: Seq<ServiceView>,
    session: EncryptedConnectionManager,
) -> bool {
    &&& router.services() == services
    &&& router.channels() == Map::<u8, i32>::empty()
    &&& router.framer().pending() is None
    &&& router.framer().session() == session
    &&& router.state() is WaitVersionResponse
}

/// The packet that opens the conversation: it asks for the version of the phone, and
/// offers version 1.1.
pub open spec fn version_request() -> PacketView {
    packet_of(
        CHANNEL_ID_CONTROL,
        AAPFrameType::ChannelSpecific,
        false,
        MESSAGE_ID_GET_VERSION_REQUEST,
        seq![0u8, 1, 0, 1],
    )
}

/// The audio focus that the phone is granted.
pub open spec fn granted_focus() -> ProtoPacket {
    focus_notification(AudioFocusStateType::AudioFocusStateGainMediaOnly)
}

/// What the answer to a ping does to a connection.
pub open spec fn ping_response_taken(before: PacketRouter, now: u64, after: PacketRouter) -> bool {
    &&& after.services() == before.services()
    &&& after.channels() == before.channels()
    &&& after.framer() == before.framer()
    &&& after.state() == match before.state() {
        PacketRouterConnectionState::Established { heartbeat } => {
            PacketRouterConnectionState::Established { heartbeat: heartbeat.ping_answered(now) }
        },
        state => state,
    }
}

/// What a request to open a channel for a service comes to. It is granted if there
/// is such a service and it has no channel yet.
pub open spec fn open_request_decided(
    before: PacketRouter,
    channel_id: u8,
    service_id: i32,
    decision: OpenChannelDecision,
    after: PacketRouter,
) -> bool {
    if has_channel(before.channels(), service_id) || !is_known_service(
        before.services(),
        service_id,
    ) {
        &&& after.channels() == before.channels()
        &&& decision.service_index is None
        &&& decision.response == channel_open_response(
            channel_id,
            MessageStatus::StatusInvalidService,
        )
    } else {
        &&& after.channels() == before.channels().insert(channel_id, service_id)
        &&& decision.service_index matches Some(index)
        &&& index < before.services().len()
        &&& before.services()[index as int].id == service_id
        &&& forall|i: int| 0 <= i < index ==> (#[trigger] before.services()[i]).id != service_id
        &&& decision.response == channel_open_response(channel_id, MessageStatus::StatusSuccess)
    }
}

/// What the first call for a handshake message comes to.
pub fn begin_handshake(answer: Result<Option<Vec<u8>>, TlsFailure>) -> (result: Result<
    RouterAction,
    RouterFailure,
>)
    ensures
        begins_handshake(answer, result),
{
    match answer {
        Ok(Some(message)) => Ok(RouterAction::SendPacket(build_handshake_packet(message.as_slice()))),
        Ok(None) => Err(RouterFailure::NoHandshakeMessage),
        Err(failure) => Err(RouterFailure::Tls(failure)),
    }
}

/// The text as a field of a message.
fn text(value: &str) -> (field: Option<String>)
    ensures
        says(field, value@),
{
    Some(value.to_owned())
}

impl PacketRouter {
    /// The services that the phone is told of.
    pub closed spec fn services(&self) -> Seq<ServiceView> {
        service_views(self.services@)
    }

    /// The open channels, each with the number of its service.
    pub closed spec fn channels(&self) -> Map<u8, i32> {
        self.channel_mapping@
    }

    pub closed spec fn framer(&self) -> PacketFramer {
        self.framer
    }

    pub closed spec fn state(&self) -> PacketRouterConnectionState {
        self.connection_state
    }

    /// Whether the TLS handshake goes on exactly as long as the connection is
    /// not established, and the channels are in order.
    pub open spec fn wf(&self) -> bool {
        &&& self.framer().wf()
        &&& self.framer().session().handshaking() <==> !(self.state() is Established)
        &&& are_channels_of(self.channels(), self.services())
    }

    /// A connection that has just been made.
    pub fn new(services: Vec<Service>, session: EncryptedConnectionManager) -> (router: Self)
        requires
            session.wf(),
            session.handshaking(),
        ensures
            router.wf(),
            is_new_connection(router, service_views(services@), session),
    {
        PacketRouter {
            services,
            channel_mapping: HashMap::new(),
            framer: PacketFramer::new(session),
            connection_state: PacketRouterConnectionState::WaitVersionResponse,
        }
    }

    /// The packet that opens the conversation.
    pub fn first_packet(&self) -> (packet: Packet)
        ensures
            packet@ == version_request(),
    {
        build_version_request_packet()
    }

    pub fn is_established(&self) -> (established: bool)
        ensures
            established == (self.state() is Established),
    {
        matches!(self.connection_state, PacketRouterConnectionState::Established { .. })
    }

    /// The heartbeat of an established connection.
    pub fn heartbeat(&self) -> (heartbeat: Option<Heartbeater>)
        ensures
            heartbeat == match self.state() {
                PacketRouterConnectionState::Established { heartbeat } => Some(heartbeat),
                _ => None,
            },
    {
        match self.connection_state {
            PacketRouterConnectionState::Established { heartbeat } => Some(heartbeat),
            _ => None,
        }
    }

    /// Whether a frame can follow what has arrived so far.
    pub fn accepts_frame(&self, frame: &AAPFrame) -> (accepted: bool)
        ensures
            accepted == accepts_frame(self.framer().pending(), frame@),
    {
        self.framer.accepts(frame)
    }

    /// Whether a packet has its place at this moment.
    pub fn accepts_packet(&self, packet: &Packet) -> (accepted: bool)
        ensures
            accepted == accepts(self.state(), packet@),
    {
        match self.connection_state {
            PacketRouterConnectionState::WaitVersionResponse => {
                packet.channel_id == CHANNEL_ID_CONTROL && packet.has_message_id()
                    && packet.message_id() == MESSAGE_ID_GET_VERSION_RESPONSE
            },
            PacketRouterConnectionState::Handshaking => {
                packet.channel_id == CHANNEL_ID_CONTROL && packet.has_message_id()
                    && packet.message_id() == MESSAGE_ID_HANDSHAKE
            },
            PacketRouterConnectionState::Established { .. } => {
                !(matches!(packet.frame_type, AAPFrameType::Control) || packet.channel_id
                    == CHANNEL_ID_CONTROL) || packet.has_message_id()
            },
        }
    }

    /// What the answer of the TLS session to a handshake message comes to.
    pub fn continue_handshake(
        &mut self,
        answer: Result<Option<Vec<u8>>, TlsFailure>,
        now: u64,
    ) -> (result: Result<RouterAction, RouterFailure>)
        requires
            old(self).state() is Handshaking,
            can_wait(now, PING_INTERVAL_MS),
        ensures
            final(self).services() == old(self).services(),
            final(self).channels() == old(self).channels(),
            final(self).framer() == old(self).framer(),
            continues_handshake(
                answer,
                old(self).framer().session().handshaking(),
                now,
                final(self).state(),
                result,
            ),
    {
        match answer {
            Ok(Some(message)) => Ok(
                RouterAction::SendPacket(build_handshake_packet(message.as_slice())),
            ),
            Ok(None) => {
                if self.framer.is_handshaking() {
                    Ok(RouterAction::Nothing)
                } else {
                    let heartbeat = Heartbeater::start(now);
                    self.connection_state = PacketRouterConnectionState::Established { heartbeat };
                    Ok(RouterAction::SendMessage(build_auth_complete_packet()))
                }
            },
            Err(failure) => Err(RouterFailure::Tls(failure)),
        }
    }

    /// Handles a packet, as the state of the connection demands.
    pub fn dispatch_incoming_packet(&mut self, packet: Packet, now: u64) -> (result: Result<
        RouterAction,
        RouterFailure,
    >)
        requires
            old(self).wf(),
            accepts(old(self).state(), packet@),
            can_wait(now, PING_INTERVAL_MS),
        ensures
            dispatched(*old(self), packet, now, result, *final(self)),
            result is Ok ==> final(self).wf(),
    {
        match self.connection_state {
            PacketRouterConnectionState::WaitVersionResponse => {
                self.connection_state = PacketRouterConnectionState::Handshaking;
                let mut nothing: [u8; 0] = [];
                assert(nothing@ =~= Seq::<u8>::empty());
                let answer = self.framer.process_handshake_message(&mut nothing);
                let result = begin_handshake(answer);
                assert(is_handshake_answer(answer, *old(self), Seq::empty(), *self));
                result
            },
            PacketRouterConnectionState::Handshaking => {
                let mut message = packet;
                let answer = self.framer.process_handshake_message(message.payload_mut());
                let result = self.continue_handshake(answer, now);
                assert(is_handshake_answer(answer, *old(self), packet@.payload(), *self));
                result
            },
            PacketRouterConnectionState::Established { heartbeat } => {
                let mut heartbeat = heartbeat;
                heartbeat.restart_ping_countdown_timer(now);
                self.connection_state = PacketRouterConnectionState::Established { heartbeat };
                Ok(self.decode_packet(packet))
            },
        }
    }

    /// Handles what a frame has completed.
    pub fn route_packet(
        &mut self,
        completed: Result<Option<Packet>, TlsFailure>,
        now: u64,
    ) -> (result: Result<RouterAction, RouterFailure>)
        requires
            old(self).wf(),
            can_wait(now, PING_INTERVAL_MS),
        ensures
            routed(*old(self), completed, now, result, *final(self)),
            result is Ok ==> final(self).wf(),
    {
        match completed {
            Ok(Some(packet)) => {
                if self.accepts_packet(&packet) {
                    self.dispatch_incoming_packet(packet, now)
                } else {
                    Err(RouterFailure::UnexpectedPacket)
                }
            },
            Ok(None) => Ok(RouterAction::Nothing),
            Err(failure) => Err(RouterFailure::Tls(failure)),
        }
    }

    /// Handles a frame.
    pub fn process_incoming_frame(&mut self, frame: AAPFrame, now: u64) -> (result: Result<
        RouterAction,
        RouterFailure,
    >)
        requires
            old(self).wf(),
            accepts_frame(old(self).framer().pending(), frame@),
            can_wait(now, PING_INTERVAL_MS),
        ensures
            frame_processed(*old(self), frame, now, result, *final(self)),
            result is Ok ==> final(self).wf(),
    {
        let completed = self.framer.process_incoming_frame(frame);
        let ghost between = *self;
        let result = self.route_packet(completed, now);
        assert(routed(between, completed, now, result, *self));
        result
    }

    /// What is to be done with a packet of an established connection.
    pub fn decode_packet(&self, packet: Packet) -> (action: RouterAction)
        requires
            self.state() is Established,
            accepts(self.state(), packet@),
        ensures
            decoded(packet, self.channels(), self.services(), action),
    {
        if matches!(packet.frame_type, AAPFrameType::Control) && packet.message_id()
            == MESSAGE_ID_OPEN_CHANNEL_REQUEST {
            RouterAction::OpenChannel(packet)
        } else if packet.channel_id == CHANNEL_ID_CONTROL {
            self.handle_control_packet(packet)
        } else if self.channel_mapping.contains_key(&packet.channel_id) {
            RouterAction::Deliver(packet)
        } else {
            RouterAction::Nothing
        }
    }

    /// Whether a channel is open for a service.
    fn has_channel_for(&self, service_id: i32) -> (found: bool)
        ensures
            found == has_channel(self.channels(), service_id),
    {
        let mut found = false;
        let values = self.channel_mapping.values();
        let ghost ids: Seq<i32> = values.remaining().unref();
        assert(ids.to_set() == self.channel_mapping@.values());
        for existing_service_id in iter: values
            invariant
                iter.seq().unref() == ids,
                found <==> exists|i: int| 0 <= i < iter.index() && #[trigger] ids[i] == service_id,
        {
            if *existing_service_id == service_id {
                found = true;
            }
        }
        assert(found <==> ids.contains(service_id));
        assert(found <==> ids.to_set().contains(service_id));
        found
    }

    /// Decides on the request to open the channel on which it was sent for a
    /// service. It is granted if there is such a service and it has no channel
    /// yet.
    pub fn handle_open_channel_request(&mut self, channel_id: u8, service_id: i32) -> (decision:
        OpenChannelDecision)
        requires
            old(self).wf(),
        ensures
            final(self).wf(),
            final(self).services() == old(self).services(),
            final(self).framer() == old(self).framer(),
            final(self).state() == old(self).state(),
            open_request_decided(*old(self), channel_id, service_id, decision, *final(self)),
    {
        let refusal = OpenChannelDecision {
            service_index: None,
            response: build_channel_open_response(
                channel_id,
                MessageStatus::StatusInvalidService,
            ),
        };
        if self.has_channel_for(service_id) {
            return refusal;
        }
        let mut index: usize = 0;
        while index < self.services.len() && self.services[index].id != service_id
            invariant
                index <= self.services@.len(),
                forall|i: int| 0 <= i < index ==> (#[trigger] self.services()[i]).id != service_id,
            decreases self.services@.len() - index,
        {
            index = index + 1;
        }
        if index == self.services.len() {
            return refusal;
        }
        assert(self.services()[index as int].id == service_id);
        self.channel_mapping.insert(channel_id, service_id);
        OpenChannelDecision {
            service_index: Some(index),
            response: build_channel_open_response(channel_id, MessageStatus::StatusSuccess),
        }
    }

    /// What is to be done with a packet on the control channel.
    pub fn handle_control_packet(&self, packet: Packet) -> (action: RouterAction)
        requires
            self.state() is Established,
            packet@.has_message_id(),
        ensures
            controlled(packet, self.services(), action),
    {
        match packet.message_id() {
            MESSAGE_ID_SERVICE_DISCOVERY_REQUEST => {
                let response = ServiceDiscoveryResponse {
                    services: duplicate_services(&self.services),
                    display_name: text("aa_player"),
                    connection_configuration: Some(
                        ConnectionConfiguration {
                            ping_configuration: Some(
                                PingConfiguration {
                                    interval_ms: Some(PING_INTERVAL_MS as u32),
                                    timeout_ms: Some(PING_MAX_RTT_MS as u32),
                                    high_latency_threshold_ms: Some(HIGH_LATENCY_THRESHOLD_MS),
                                },
                            ),
                        },
                    ),
                    headunit_info: Some(
                        HeadUnitInfo {
                            make: text("wiomoc"),
                            model: text("aa_player"),
                            year: text("2025"),
                            vehicle_id: text("12345"),
                            head_unit_make: text("wiomoc"),
                            head_unit_model: text("aa_player"),
                            head_unit_software_build: text("42"),
                            head_unit_software_version: text("1.0"),
                        },
                    ),
                };
                RouterAction::SendMessage(build_service_discovery_response_packet(response))
            },
            MESSAGE_ID_PING_RESPONSE => RouterAction::PingResponse(packet),
            MESSAGE_ID_AUDIO_FOCUS_NOTIFICATION_REQUEST => RouterAction::AudioFocusRequest(packet),
            _ => RouterAction::Nothing,
        }
    }

    /// Takes in that the phone has answered a ping.
    pub fn handle_ping_response(&mut self, now: u64)
        requires
            can_wait(now, PING_INTERVAL_MS),
            old(self).state() matches PacketRouterConnectionState::Established { heartbeat }
                ==> heartbeat.can_count(),
        ensures
            ping_response_taken(*old(self), now, *final(self)),
    {
        if let PacketRouterConnectionState::Established { heartbeat } = self.connection_state {
            let mut heartbeat = heartbeat;
            heartbeat.handle_heartbeat_ping_response(now);
            self.connection_state = PacketRouterConnectionState::Established { heartbeat };
        }
    }

    /// Grants the phone the audio focus that it has asked for.
    pub fn handle_audio_focus_request(&self) -> (packet: ProtoPacket)
        ensures
            packet == granted_focus(),
    {
        build_focus_notification_packet(AudioFocusStateType::AudioFocusStateGainMediaOnly)
    }

    /// The frames to send for a packet.
    pub fn send_packet(&mut self, packet: Packet) -> (result: Result<Vec<AAPFrame>, RouterFailure>)
        requires
            old(self).wf(),
            packet.encrypted ==> old(self).state() is Established,
        ensures
            final(self).wf(),
            packet_sent(*old(self), packet, result, *final(self)),
    {
        match self.framer.process_outgoing_packet(packet) {
            Ok(frames) => Ok(frames),
            Err(failure) => Err(RouterFailure::Tls(failure)),
        }
    }

    /// Handles what has happened to the connection. Until it is established,
    /// only the phone is listened to.
    pub fn handle_event(&mut self, event: ConnectionEvent, now: u64) -> (step: Result<
        ConnectionStep,
        RouterFailure,
    >)
        requires
            old(self).wf(),
            can_wait(now, PING_INTERVAL_MS),
            !(old(self).state() is Established) ==> event is Incoming,
            event != ConnectionEvent::Incoming(IncomingEvent::Connected),
            event matches ConnectionEvent::Incoming(IncomingEvent::Frame(frame)) ==> accepts_frame(
                old(self).framer().pending(),
                frame@,
            ),
        ensures
            step is Ok ==> final(self).wf(),
            handled(*old(self), event, now, step, *final(self)),
    {
        match event {
            ConnectionEvent::OutgoingPacket(Some(packet)) => {
                match self.send_packet(packet) {
                    Ok(frames) => Ok(ConnectionStep::SendFrames(frames)),
                    Err(failure) => Err(failure),
                }
            },
            ConnectionEvent::OutgoingPacket(None) => Ok(
                ConnectionStep::Close(PacketRouterResult::ConnectionClosedInterally),
            ),
            ConnectionEvent::Incoming(IncomingEvent::Connected) => {
                vstd::pervasive::unreached()
            },
            ConnectionEvent::Incoming(IncomingEvent::Closed) => Ok(
                ConnectionStep::Close(PacketRouterResult::ConnectionClosedExternaly),
            ),
            ConnectionEvent::Incoming(IncomingEvent::Frame(frame)) => {
                match self.process_incoming_frame(frame, now) {
                    Ok(action) => Ok(ConnectionStep::Act(action)),
                    Err(failure) => Err(failure),
                }
            },
            ConnectionEvent::TimerElapsed { timestamp } => {
                match self.connection_state {
                    PacketRouterConnectionState::Established { heartbeat } => {
                        let mut heartbeat = heartbeat;
                        let ping = heartbeat.handle_timer_elapsed(now, timestamp);
                        self.connection_state =
                        PacketRouterConnectionState::Established { heartbeat };
                        match ping {
                            Ok(packet) => Ok(
                                ConnectionStep::Act(RouterAction::SendMessage(packet)),
                            ),
                            Err(_) => Ok(
                                ConnectionStep::Close(
                                    PacketRouterResult::ConnectionClosedExternaly,
                                ),
                            ),
                        }
                    },
                    _ => vstd::pervasive::unreached(),
                }
            },
            ConnectionEvent::Cancelled => Ok(
                ConnectionStep::Close(PacketRouterResult::ConnectionClosedInterally),
            ),
        }
    }
}

/// Sends the packets of one service on the channel that was opened for it.
#[derive(Debug, Clone, Copy, PartialEq, Eq, Structural)]
pub struct ChannelPacketSender {
    pub channel_id: u8,
}

impl ChannelPacketSender {
    /// The packet by which a message is sent.
    pub open spec fn proto_packet(self, message_id: u16, message: ProtoMessage) -> ProtoPacket {
        ProtoPacket {
            channel_id: self.channel_id,
            frame_type: AAPFrameType::ChannelSpecific,
            encrypted: true,
            message_id,
            message,
        }
    }

    /// The packet by which bytes are sent as they are.
    pub open spec fn raw_packet(self, message_id: u16, payload: Seq<u8>) -> PacketView {
        packet_of(self.channel_id, AAPFrameType::ChannelSpecific, true, message_id, payload)
    }

    /// The packet by which a message is to be sent.
    pub fn send_proto(&self, message_id: u16, message: ProtoMessage) -> (packet: ProtoPacket)
        ensures
            packet == self.proto_packet(message_id, message),
    {
        ProtoPacket {
            channel_id: self.channel_id,
            frame_type: AAPFrameType::ChannelSpecific,
            encrypted: true,
            message_id,
            message,
        }
    }

    /// The packet by which bytes are to be sent as they are.
    pub fn send_raw(&self, message_id: u16, payload: &[u8]) -> (packet: Packet)
        ensures
            packet@ == self.raw_packet(message_id, payload@),
    {
        Packet::new_from_parts(
            self.channel_id,
            AAPFrameType::ChannelSpecific,
            true,
            message_id,
            payload,
        )
    }
}

/// How far a connection has come.
pub open spec fn progress(state: PacketRouterConnectionState) -> int {
    match state {
        PacketRouterConnectionState::WaitVersionResponse => 0,
        PacketRouterConnectionState::Handshaking => 1,
        PacketRouterConnectionState::Established { .. } => 2,
    }
}

/// A connection never goes back to an earlier state, and it leaves out none.
pub proof fn connection_only_advances(
    before: PacketRouter,
    frame: AAPFrame,
    now: u64,
    result: Result<RouterAction, RouterFailure>,
    after: PacketRouter,
)
    requires
        frame_processed(before, frame, now, result, after),
    ensures
        progress(before.state()) <= progress(after.state()) <= progress(before.state()) + 1,
{
}

/// No frame opens or closes a channel by itself, or changes the services.
pub proof fn frames_leave_the_channels_alone(
    before: PacketRouter,
    frame: AAPFrame,
    now: u64,
    result: Result<RouterAction, RouterFailure>,
    after: PacketRouter,
)
    requires
        frame_processed(before, frame, now, result, after),
    ensures
        after.channels() == before.channels(),
        after.services() == before.services(),
{
}

/// No two channels are open for one service, and every channel is open for a
/// service that exists.
pub proof fn a_service_has_one_channel(router: PacketRouter, a: u8, b: u8)
    requires
        router.wf(),
        router.channels().dom().contains(a),
        router.channels().dom().contains(b),
        router.channels()[a] == router.channels()[b],
    ensures
        a == b,
        is_known_service(router.services(), router.channels()[a]),
{
}

/// Once a channel has been opened for a service, the packets on it reach that
/// service, and the service is not given a second one.
pub proof fn an_opened_channel_reaches_its_service(
    channels: Map<u8, i32>,
    services: Seq<ServiceView>,
    channel_id: u8,
    service_id: i32,
    packet: Packet,
    action: RouterAction,
)
    requires
        packet.channel_id == channel_id,
        channel_id != CHANNEL_ID_CONTROL,
        packet.frame_type is ChannelSpecific,
        decoded(packet, channels.insert(channel_id, service_id), services, action),
    ensures
        action == RouterAction::Deliver(packet),
        has_channel(channels.insert(channel_id, service_id), service_id),
{
    assert(channels.insert(channel_id, service_id).dom().contains(channel_id));
}

/// On an established connection, a control packet whose message has the number 7
/// is a request to open a channel, on whatever channel it comes, whether or not
/// one is open there, and whether it came encrypted or not.
pub proof fn open_requests_are_heard_everywhere(
    before: PacketRouter,
    packet: Packet,
    now: u64,
    result: Result<RouterAction, RouterFailure>,
    after: PacketRouter,
)
    requires
        before.state() is Established,
        dispatched(before, packet, now, result, after),
        packet.frame_type is Control,
        packet.message_id_and_payload@.len() >= 2,
        packet.message_id_and_payload@[0] == 0,
        packet.message_id_and_payload@[1] == 7,
    ensures
        result == Ok::<_, RouterFailure>(RouterAction::OpenChannel(packet)),
{
}

/// On an established connection, all packets that are no request to open a channel
/// go by their channel, whether they came encrypted or not. On channel 0, the
/// number of the message decides: 5 asks for the services, 12 answers a ping, 18
/// asks for the audio focus, and nothing is done on others. On another channel,
/// the packet is handed to the service that the channel is open for, whatever the
/// message, and dropped where it is not open.
pub proof fn packets_go_where_they_belong(
    before: PacketRouter,
    packet: Packet,
    now: u64,
    result: Result<RouterAction, RouterFailure>,
    after: PacketRouter,
)
    requires
        before.state() is Established,
        dispatched(before, packet, now, result, after),
        packet.frame_type is ChannelSpecific || !(packet.message_id_and_payload@[0] == 0
            && packet.message_id_and_payload@[1] == 7),
    ensures
        result is Ok,
        ({
            let action = result->Ok_0;
            let message_id = 0x100 * packet.message_id_and_payload@[0]
                + packet.message_id_and_payload@[1];
            &&& packet.channel_id == 0 && message_id == 5 ==> action is SendMessage
            &&& packet.channel_id == 0 && message_id == 12 ==> action
                == RouterAction::PingResponse(packet)
            &&& packet.channel_id == 0 && message_id == 18 ==> action
                == RouterAction::AudioFocusRequest(packet)
            &&& packet.channel_id == 0 && message_id != 5 && message_id != 12 && message_id != 18
                ==> action == RouterAction::Nothing
            &&& packet.channel_id != 0 && before.channels().dom().contains(packet.channel_id)
                ==> action == RouterAction::Deliver(packet)
            &&& packet.channel_id != 0 && !before.channels().dom().contains(packet.channel_id)
                ==> action == RouterAction::Nothing
        }),
{
}

/// A request for the services is answered, encrypted and on channel 0, with all of
/// them in their order, with the times of the pings, and with what the head unit
/// says of itself.
pub proof fn the_phone_is_told_of_all_services(
    before: PacketRouter,
    packet: Packet,
    now: u64,
    response: ProtoPacket,
    after: PacketRouter,
    index: int,
)
    requires
        before.state() is Established,
        dispatched(before, packet, now, Ok(RouterAction::SendMessage(response)), after),
    ensures
        packet.channel_id == 0,
        packet.message_id_and_payload@[0] == 0,
        packet.message_id_and_payload@[1] == 5,
        response.channel_id == 0,
        response.frame_type is ChannelSpecific,
        response.encrypted,
        response.message_id == 6,
        response.message is ServiceDiscoveryResponse,
        ({
            let told = response.message->ServiceDiscoveryResponse_0;
            let pings = told.connection_configuration->0.ping_configuration->0;
            let unit = told.headunit_info->0;
            &&& told.services@.len() == before.services().len()
            &&& 0 <= index < told.services@.len() ==> told.services@[index]@
                == before.services()[index]
            &&& told.display_name is Some && told.display_name->0@ == "aa_player"@
            &&& told.connection_configuration is Some
            &&& told.connection_configuration->0.ping_configuration is Some
            &&& pings.interval_ms == Some(4000u32)
            &&& pings.timeout_ms == Some(1800u32)
            &&& pings.high_latency_threshold_ms == Some(100000u32)
            &&& told.headunit_info is Some
            &&& unit.make is Some && unit.make->0@ == "wiomoc"@
            &&& unit.model is Some && unit.model->0@ == "aa_player"@
            &&& unit.year is Some && unit.year->0@ == "2025"@
            &&& unit.vehicle_id is Some && unit.vehicle_id->0@ == "12345"@
            &&& unit.head_unit_make is Some && unit.head_unit_make->0@ == "wiomoc"@
            &&& unit.head_unit_model is Some && unit.head_unit_model->0@ == "aa_player"@
            &&& unit.head_unit_software_build is Some && unit.head_unit_software_build->0@ == "42"@
            &&& unit.head_unit_software_version is Some && unit.head_unit_software_version->0@
                == "1.0"@
        }),
{
    let told = response.message->ServiceDiscoveryResponse_0;
    assert(service_views(told.services@).len() == told.services@.len());
    if 0 <= index < told.services@.len() {
        assert(service_views(told.services@)[index] == told.services@[index]@);
    }
}

/// While the version is waited for and during the handshake, nothing but the
/// packet that is due, on channel 0, has its place: message 2 and then message 3.
/// Afterwards, everything has, as long as what has to be looked at is there.
pub proof fn packets_come_in_their_time(
    router: PacketRouter,
    completed: Packet,
    now: u64,
    result: Result<RouterAction, RouterFailure>,
    after: PacketRouter,
)
    requires
        routed(router, Ok(Some(completed)), now, result, after),
    ensures
        ({
            let bytes = completed.message_id_and_payload@;
            let in_time = match router.state() {
                PacketRouterConnectionState::WaitVersionResponse => completed.channel_id == 0
                    && bytes.len() >= 2 && bytes[0] == 0 && bytes[1] == 2,
                PacketRouterConnectionState::Handshaking => completed.channel_id == 0
                    && bytes.len() >= 2 && bytes[0] == 0 && bytes[1] == 3,
                PacketRouterConnectionState::Established { .. } => bytes.len() >= 2
                    || completed.channel_id != 0 && completed.frame_type is ChannelSpecific,
            };
            &&& in_time ==> dispatched(router, completed, now, result, after)
            &&& !in_time ==> after == router && result == Err::<RouterAction, _>(
                RouterFailure::UnexpectedPacket,
            )
        }),
{
}

/// The answer of the phone to the version request begins the handshake: the
/// session is asked for its first message, which is sent in the clear as message 3
/// on channel 0.
pub proof fn the_version_begins_the_handshake(
    before: PacketRouter,
    packet: Packet,
    now: u64,
    result: Result<RouterAction, RouterFailure>,
    after: PacketRouter,
)
    requires
        before.state() is WaitVersionResponse,
        dispatched(before, packet, now, result, after),
    ensures
        after.state() is Handshaking,
        exists|answer: Result<Option<Vec<u8>>, TlsFailure>|
            {
                &&& #[trigger] handshake_message_processed(
                    before.framer().session(),
                    Seq::empty(),
                    answer,
                    after.framer().session(),
                )
                &&& answer matches Ok(Some(message)) ==> is_sent_in_handshake(result, message@)
                &&& answer matches Ok(None) ==> result == Err::<RouterAction, _>(
                    RouterFailure::NoHandshakeMessage,
                )
                &&& answer matches Err(failure) ==> result == Err::<RouterAction, _>(
                    RouterFailure::Tls(failure),
                )
            },
{
    let answer = choose|answer: Result<Option<Vec<u8>>, TlsFailure>|
        {
            &&& is_handshake_answer(answer, before, Seq::empty(), after)
            &&& #[trigger] begins_handshake(answer, result)
        };
    assert(handshake_message_processed(
        before.framer().session(),
        Seq::empty(),
        answer,
        after.framer().session(),
    ));
    if let Ok(Some(message)) = answer {
        lemma_sent_in_handshake(result, message@);
    }
}

/// Whether a packet with a message of the handshake is to be sent.
pub open spec fn is_sent_in_handshake(
    result: Result<RouterAction, RouterFailure>,
    message: Seq<u8>,
) -> bool {
    &&& result matches Ok(RouterAction::SendPacket(packet))
    &&& packet.channel_id == 0
    &&& packet.frame_type is ChannelSpecific
    &&& !packet.encrypted
    &&& packet.message_id_and_payload@ == seq![0u8, 3u8] + message
}

proof fn lemma_sent_in_handshake(result: Result<RouterAction, RouterFailure>, message: Seq<u8>)
    requires
        result matches Ok(action) && sends_handshake_message(action, message),
    ensures
        is_sent_in_handshake(result, message),
{
    let packet = result->Ok_0->SendPacket_0;
    assert(packet@.channel_id == packet.channel_id && packet@.frame_type == packet.frame_type);
    assert(packet@.encrypted == packet.encrypted);
    assert(packet.message_id_and_payload@ =~= seq![0u8, 3u8] + message);
}

/// Each further message of the handshake goes to the session with all that comes
/// after its number. What the session answers is sent in the clear as message 3 on
/// channel 0. Once it answers nothing and the handshake is over, the connection is
/// established, the phone is told so in the clear by message 4, and the first ping
/// is due 4 seconds later. In all other cases the handshake goes on.
pub proof fn the_handshake_establishes_the_connection(
    before: PacketRouter,
    packet: Packet,
    now: u64,
    result: Result<RouterAction, RouterFailure>,
    after: PacketRouter,
)
    requires
        before.state() is Handshaking,
        dispatched(before, packet, now, result, after),
        packet.message_id_and_payload@.len() >= 2,
        now + 4_000_000_000 <= u64::MAX,
    ensures
        exists|answer: Result<Option<Vec<u8>>, TlsFailure>|
            {
                &&& #[trigger] handshake_message_processed(
                    before.framer().session(),
                    packet.message_id_and_payload@.skip(2),
                    answer,
                    after.framer().session(),
                )
                &&& answer matches Ok(Some(message)) ==> {
                    &&& after.state() is Handshaking
                    &&& is_sent_in_handshake(result, message@)
                }
                &&& answer matches Err(failure) ==> {
                    &&& after.state() is Handshaking
                    &&& result == Err::<RouterAction, _>(RouterFailure::Tls(failure))
                }
                &&& answer == Ok::<Option<Vec<u8>>, TlsFailure>(None)
                    && after.framer().session().handshaking() ==> {
                    &&& after.state() is Handshaking
                    &&& result == Ok::<_, RouterFailure>(RouterAction::Nothing)
                }
                &&& answer == Ok::<Option<Vec<u8>>, TlsFailure>(None)
                    && !after.framer().session().handshaking() ==> {
                    &&& after.state() matches PacketRouterConnectionState::Established { heartbeat }
                    &&& heartbeat.counter == 0
                    &&& heartbeat.state is WaitingUntilSendingNextPingRequest
                    &&& heartbeat.next_timeout == now + 4_000_000_000
                    &&& result matches Ok(RouterAction::SendMessage(told))
                    &&& told.channel_id == 0
                    &&& told.frame_type is ChannelSpecific
                    &&& !told.encrypted
                    &&& told.message_id == 4
                    &&& told.message matches ProtoMessage::AuthResponse(response)
                    &&& response.status is StatusSuccess
                }
            },
{
    let answer = choose|answer: Result<Option<Vec<u8>>, TlsFailure>|
        {
            &&& is_handshake_answer(answer, before, packet@.payload(), after)
            &&& #[trigger] continues_handshake(
                answer,
                after.framer().session().handshaking(),
                now,
                after.state(),
                result,
            )
        };
    assert(packet@.payload() =~= packet.message_id_and_payload@.skip(2));
    assert(handshake_message_processed(
        before.framer().session(),
        packet.message_id_and_payload@.skip(2),
        answer,
        after.framer().session(),
    ));
    if let Ok(Some(message)) = answer {
        lemma_sent_in_handshake(result, message@);
    }
}

/// A request to open a channel is granted if and only if the service is one that
/// the phone was told of, and no channel is open for it. Granted or not, the
/// answer goes out in the clear on the channel of the request, as control message
/// 8. If it is granted, the channel belongs to the service from then on, and the
/// first service with the number gets it; if not, nothing changes. No other channel
/// is touched.
pub proof fn a_channel_is_opened_for_a_free_service(
    before: PacketRouter,
    channel_id: u8,
    service_id: i32,
    decision: OpenChannelDecision,
    after: PacketRouter,
    other: u8,
)
    requires
        open_request_decided(before, channel_id, service_id, decision, after),
    ensures
        decision.response.channel_id == channel_id,
        decision.response.frame_type is Control,
        !decision.response.encrypted,
        decision.response.message_id == 8,
        decision.response.message is ChannelOpenResponse,
        decision.response.message->ChannelOpenResponse_0.status is StatusSuccess
            <==> decision.service_index is Some,
        decision.service_index is Some <==> {
            &&& exists|i: int|
                0 <= i < before.services().len() && (#[trigger] before.services()[i]).id
                    == service_id
            &&& forall|open: u8| #[trigger]
                before.channels().dom().contains(open) ==> before.channels()[open] != service_id
        },
        decision.service_index matches Some(index) ==> {
            &&& index < before.services().len()
            &&& before.services()[index as int].id == service_id
            &&& after.channels().dom().contains(channel_id)
            &&& after.channels()[channel_id] == service_id
        },
        decision.service_index is None ==> after.channels() == before.channels(),
        other != channel_id ==> {
            &&& after.channels().dom().contains(other) <==> before.channels().dom().contains(other)
            &&& before.channels().dom().contains(other) ==> after.channels()[other]
                == before.channels()[other]
        },
{
}

/// A service that has been given a channel is not given another one.
pub proof fn a_second_request_is_refused(
    before: PacketRouter,
    first: (u8, OpenChannelDecision),
    between: PacketRouter,
    second: (u8, OpenChannelDecision),
    after: PacketRouter,
    service_id: i32,
)
    requires
        open_request_decided(before, first.0, service_id, first.1, between),
        first.1.service_index is Some,
        open_request_decided(between, second.0, service_id, second.1, after),
    ensures
        second.1.service_index is None,
        second.1.response.message->ChannelOpenResponse_0.status is StatusInvalidService,
        after.channels() == between.channels(),
{
    assert(between.channels().dom().contains(first.0));
}

/// Every packet of an established connection puts off the next ping to 4 seconds
/// after it, unless the answer to one is due, and changes nothing else of the
/// connection.
pub proof fn packets_keep_the_connection_alive(
    before: PacketRouter,
    packet: Packet,
    now: u64,
    result: Result<RouterAction, RouterFailure>,
    after: PacketRouter,
)
    requires
        before.state() is Established,
        dispatched(before, packet, now, result, after),
        now + 4_000_000_000 <= u64::MAX,
    ensures
        after.channels() == before.channels(),
        after.services() == before.services(),
        after.framer() == before.framer(),
        after.state() is Established,
        ({
            let was = before.state()->heartbeat;
            let is = after.state()->heartbeat;
            &&& is.state == was.state
            &&& is.counter == was.counter
            &&& was.state is WaitingForPingResponse ==> is.next_timeout == was.next_timeout
            &&& was.state is WaitingUntilSendingNextPingRequest ==> is.next_timeout == now
                + 4_000_000_000
        }),
{
}

/// The end of the link, and an unanswered ping, close a connection from outside;
/// the end of all services, and the end of the program, from inside. Packets that
/// are to be sent and frames that come do not close it.
pub proof fn a_connection_ends_as_it_should(
    before: PacketRouter,
    event: ConnectionEvent,
    now: u64,
    step: Result<ConnectionStep, RouterFailure>,
    after: PacketRouter,
)
    requires
        handled(before, event, now, step, after),
        event != ConnectionEvent::Incoming(IncomingEvent::Connected),
    ensures
        event is Cancelled || event == ConnectionEvent::OutgoingPacket(None) ==> step
            == Ok::<_, RouterFailure>(
            ConnectionStep::Close(PacketRouterResult::ConnectionClosedInterally),
        ),
        event == ConnectionEvent::Incoming(IncomingEvent::Closed) ==> step == Ok::<
            _,
            RouterFailure,
        >(ConnectionStep::Close(PacketRouterResult::ConnectionClosedExternaly)),
        event matches ConnectionEvent::Incoming(IncomingEvent::Frame(frame)) ==> match step {
            Ok(ConnectionStep::Act(action)) => frame_processed(
                before,
                frame,
                now,
                Ok(action),
                after,
            ),
            Ok(_) => false,
            Err(failure) => frame_processed(before, frame, now, Err(failure), after),
        },
        event matches ConnectionEvent::OutgoingPacket(Some(packet)) ==> match step {
            Ok(ConnectionStep::SendFrames(frames)) => packet_sent(
                before,
                packet,
                Ok(frames),
                after,
            ),
            Ok(_) => false,
            Err(failure) => packet_sent(before, packet, Err(failure), after),
        },
        event matches ConnectionEvent::TimerElapsed { timestamp } ==> {
            &&& before.state() matches PacketRouterConnectionState::Established { heartbeat }
            &&& heartbeat.state is WaitingForPingResponse ==> {
                &&& step == Ok::<_, RouterFailure>(
                    ConnectionStep::Close(PacketRouterResult::ConnectionClosedExternaly),
                )
                &&& after.state() == before.state()
            }
            &&& heartbeat.state is WaitingUntilSendingNextPingRequest ==> {
                &&& step matches Ok(ConnectionStep::Act(RouterAction::SendMessage(ping)))
                &&& ping.channel_id == 0
                &&& ping.message_id == 11
                &&& !ping.encrypted
                &&& ping.message matches ProtoMessage::PingRequest(request)
                &&& request.timestamp == timestamp
                &&& after.state() matches PacketRouterConnectionState::Established {
                    heartbeat: pinged,
                }
                &&& pinged.state is WaitingForPingResponse
                &&& pinged.counter == heartbeat.counter
            }
        },
{
}

/// A frame goes first to the framer, and what it completes is then routed; a
/// frame that completes nothing asks for nothing.
pub proof fn frames_are_routed_once_complete(
    before: PacketRouter,
    frame: AAPFrame,
    now: u64,
    result: Result<RouterAction, RouterFailure>,
    after: PacketRouter,
)
    requires
        frame_processed(before, frame, now, result, after),
    ensures
        exists|between: PacketRouter, completed: Result<Option<Packet>, TlsFailure>|
            {
                &&& takes_frame(before.framer(), frame, completed, between.framer())
                &&& between.state() == before.state()
                &&& between.channels() == before.channels()
                &&& between.services() == before.services()
                &&& #[trigger] routed(between, completed, now, result, after)
                &&& completed == Ok::<Option<Packet>, TlsFailure>(None) ==> after == between
                    && result == Ok::<_, RouterFailure>(RouterAction::Nothing)
                &&& completed matches Err(failure) ==> after == between && result == Err::<
                    RouterAction,
                    _,
                >(RouterFailure::Tls(failure))
            },
{
}

/// What is to be sent is framed in the session of the connection, and changes
/// nothing else of it.
pub proof fn packets_are_sent_in_the_session(
    before: PacketRouter,
    packet: Packet,
    result: Result<Vec<AAPFrame>, RouterFailure>,
    after: PacketRouter,
)
    requires
        packet_sent(before, packet, result, after),
    ensures
        after.state() == before.state(),
        after.channels() == before.channels(),
        after.services() == before.services(),
        after.framer().pending() == before.framer().pending(),
        result matches Ok(frames) ==> is_framed(
            before.framer().session(),
            packet@,
            Ok(frames),
            after.framer().session(),
        ),
        result matches Err(failure) ==> failure is Tls && is_framed(
            before.framer().session(),
            packet@,
            Err(failure->Tls_0),
            after.framer().session(),
        ),
{
}

/// The packets of a service go out encrypted, on its channel, and are no control
/// packets.
pub proof fn services_send_encrypted(
    sender: ChannelPacketSender,
    message_id: u16,
    message: ProtoMessage,
)
    ensures
        sender.proto_packet(message_id, message).channel_id == sender.channel_id,
        sender.proto_packet(message_id, message).frame_type is ChannelSpecific,
        sender.proto_packet(message_id, message).encrypted,
        sender.proto_packet(message_id, message).message_id == message_id,
        sender.proto_packet(message_id, message).message == message,
{
}

/// A connection begins with no channel and nothing under way, in its session, with
/// all services, and with the version of the phone to be learnt.
pub proof fn a_connection_begins_empty(
    router: PacketRouter,
    services: Seq<ServiceView>,
    session: EncryptedConnectionManager,
    channel_id: u8,
)
    requires
        is_new_connection(router, services, session),
    ensures
        !router.channels().dom().contains(channel_id),
        router.services() == services,
        router.framer().pending() is None,
        router.framer().session() == session,
        router.state() is WaitVersionResponse,
{
}

/// The conversation is opened in the clear on channel 0 by message 1, which offers
/// version 1.1.
pub proof fn the_version_is_asked_for_first()
    ensures
        version_request().channel_id == 0,
        version_request().frame_type is ChannelSpecific,
        !version_request().encrypted,
        version_request().message_id_and_payload == seq![0u8, 1, 0, 1, 0, 1],
{
    assert(version_request().message_id_and_payload =~= seq![0u8, 1, 0, 1, 0, 1]);
}

/// Who asks for the audio focus gets it for media, by message 19 on channel 0.
pub proof fn the_focus_is_granted()
    ensures
        granted_focus().channel_id == 0,
        !granted_focus().encrypted,
        granted_focus().message_id == 19,
        granted_focus().message is AudioFocusNotification,
        granted_focus().message->AudioFocusNotification_0.focus_state
            is AudioFocusStateGainMediaOnly,
{
}

/// The answer to a ping that is due lets the connection live: it is counted, and the
/// next ping is due 4 seconds later. One that is not due changes nothing, nor does
/// one before the connection is established.
pub proof fn an_answered_ping_keeps_the_connection(
    before: PacketRouter,
    now: u64,
    after: PacketRouter,
)
    requires
        ping_response_taken(before, now, after),
        now + 4_000_000_000 <= u64::MAX,
    ensures
        after.services() == before.services(),
        after.channels() == before.channels(),
        after.framer() == before.framer(),
        !(before.state() is Established) ==> after.state() == before.state(),
        before.state() matches PacketRouterConnectionState::Established { heartbeat } ==> {
            &&& after.state() is Established
            &&& heartbeat.state is WaitingUntilSendingNextPingRequest ==> after.state()
                == before.state()
            &&& heartbeat.state is WaitingForPingResponse && heartbeat.counter < u32::MAX ==> {
                let answered = after.state()->heartbeat;
                &&& answered.state is WaitingUntilSendingNextPingRequest
                &&& answered.counter == heartbeat.counter + 1
                &&& answered.next_timeout == now + 4_000_000_000
            }
        },
{
}

/// The bytes of a service go out encrypted, on its channel, behind the two bytes of
/// their number.
pub proof fn services_send_bytes_encrypted(
    sender: ChannelPacketSender,
    message_id: u16,
    payload: Seq<u8>,
)
    ensures
        ({
            let packet = sender.raw_packet(message_id, payload);
            let bytes = packet.message_id_and_payload;
            &&& packet.channel_id == sender.channel_id
            &&& packet.frame_type is ChannelSpecific
            &&& packet.encrypted
            &&& bytes.len() == payload.len() + 2
            &&& 0x100 * bytes[0] + bytes[1] == message_id
            &&& forall|i: int|
                0 <= i < payload.len() ==> bytes[i + 2] == #[trigger] payload[i]
        }),
{
    crate::packet::a_packet_is_made_of_its_parts(
        sender.channel_id,
        AAPFrameType::ChannelSpecific,
        true,
        message_id,
        payload,
    );
}

} // verus!
