//! The services that the phone is offered.
use crate::packet::{Packet, PacketView};
use crate::packet_router::ChannelPacketSender;
use crate::protos::{self, KeyBindingResponse, ProtoMessage, ProtoPacket, ServiceView};
use vstd::prelude::*;

pub mod audio_renderer;
pub mod audio_source;
pub mod input_service;
pub mod media_sink;
pub mod video_renderer;

verus! {

pub const MESSAGE_ID_KEY_BINDING_REQUEST: u16 = 0x8002;

pub const MESSAGE_ID_KEY_BINDING_RESPONSE: u16 = 0x8003;

/// A service advertised to the phone during service discovery.
pub trait Service {
    /// What the service says of itself.
    spec fn descriptor(&self) -> ServiceView;

    fn get_id(&self) -> (id: i32)
        ensures
            id == self.descriptor().id,
    ;

    fn get_descriptor(&self) -> (descriptor: protos::Service)
        ensures
            descriptor@ == self.descriptor(),
    ;
}

/// The answer to a request for key bindings: it is always granted.
pub open spec fn key_binding_response(sender: ChannelPacketSender) -> ProtoPacket {
    sender.proto_packet(
        MESSAGE_ID_KEY_BINDING_RESPONSE,
        ProtoMessage::KeyBindingResponse(KeyBindingResponse { status: 0 }),
    )
}

/// The answer to a packet: only requests for key bindings have one.
pub open spec fn key_binding_answer(
    sender: ChannelPacketSender,
    packet: PacketView,
) -> Option<ProtoPacket> {
    if packet.message_id() == MESSAGE_ID_KEY_BINDING_REQUEST {
        Some(key_binding_response(sender))
    } else {
        None
    }
}

/// Answers a request for key bindings; other packets have no answer.
pub fn answer_key_binding_request(sender: &ChannelPacketSender, packet: &Packet) -> (response:
    Option<ProtoPacket>)
    requires
        packet@.has_message_id(),
    ensures
        response == key_binding_answer(*sender, packet@),
{
    if packet.message_id() == MESSAGE_ID_KEY_BINDING_REQUEST {
        Some(
            sender.send_proto(
                MESSAGE_ID_KEY_BINDING_RESPONSE,
                ProtoMessage::KeyBindingResponse(KeyBindingResponse { status: 0 }),
            ),
        )
    } else {
        None
    }
}

/// A service that does no more than to exist.
pub struct StubService {
    descriptor: protos::Service,
}

impl StubService {
    pub fn new(descriptor: protos::Service) -> (service: Box<Self>)
        ensures
            service.descriptor() == descriptor@,
    {
        Box::new(StubService { descriptor })
    }

    /// The answer to a packet on the channel of the service.
    pub fn answer(&self, sender: &ChannelPacketSender, packet: &Packet) -> (response: Option<
        ProtoPacket,
    >)
        requires
            packet@.has_message_id(),
        ensures
            response == key_binding_answer(*sender, packet@),
    {
        answer_key_binding_request(sender, packet)
    }
}

impl Service for StubService {
    closed spec fn descriptor(&self) -> ServiceView {
        self.descriptor@
    }

    fn get_id(&self) -> (id: i32) {
        self.descriptor.id
    }

    fn get_descriptor(&self) -> (descriptor: protos::Service) {
        self.descriptor.duplicate()
    }
}

/// Message 0x8002, which asks for key bindings, is answered with success: encrypted
/// on the channel of the service, as message 0x8003. No other message is answered.
pub proof fn key_bindings_are_granted(sender: ChannelPacketSender, packet: PacketView)
    requires
        packet.message_id_and_payload.len() >= 2,
    ensures
        ({
            let bytes = packet.message_id_and_payload;
            let answer = key_binding_answer(sender, packet);
            &&& answer is Some <==> bytes[0] == 0x80 && bytes[1] == 2
            &&& answer matches Some(response) ==> {
                &&& response.channel_id == sender.channel_id
                &&& response.frame_type is ChannelSpecific
                &&& response.encrypted
                &&& response.message_id == 0x8003
                &&& response.message matches ProtoMessage::KeyBindingResponse(status)
                &&& status.status == 0
            }
        }),
{
}

} // verus!
