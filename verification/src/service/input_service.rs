//! The service that tells the phone where its screen is touched. Instants are
//! numbers of nanoseconds since the beginning of 1970.
use crate::packet::Packet;
use crate::packet_router::ChannelPacketSender;
use crate::protos::{
    self, bare_service, InputReport, InputSourceService, InputSourceServiceView, Pointer,
    PointerAction, ProtoMessage, ProtoPacket, ServiceView, TouchEvent, TouchScreen,
    TouchScreenType,
};
use crate::service::{answer_key_binding_request, key_binding_answer, Service};
use vstd::prelude::*;

verus! {

pub const MESSAGE_ID_INPUT_REPORT: u16 = 0x8001;

pub const MESSAGE_ID_INPUT_FEEDBACK: u16 = 0x8004;

/// For how long after a reported move small ones are left out.
pub const DEBOUNCE_NANOSECONDS: u64 = 30_000_000;

/// The square of the distance below which a move is small.
pub const SMALL_DISTANCE_SQUARED: u32 = 225;

/// The pointer, as far as the phone knows of it.
#[derive(Debug, Clone, Copy)]
pub struct InputEventReceiverInner {
    pub packet_sender: ChannelPacketSender,
    /// When and where the last move was reported.
    pub last_input_move_event: Option<(u64, (u32, u32))>,
    pub pointer_down: bool,
}

/// A pointer of which nothing is known yet but the channel to report it on.
pub open spec fn lifted_pointer(packet_sender: ChannelPacketSender) -> InputEventReceiverInner {
    InputEventReceiverInner { packet_sender, last_input_move_event: None, pointer_down: false }
}

/// The difference of two coordinates, whichever is the larger.
pub open spec fn difference(a: u32, b: u32) -> int {
    if a >= b {
        a - b
    } else {
        b - a
    }
}

/// The square of the distance between two points.
pub open spec fn distance_squared(a: (u32, u32), b: (u32, u32)) -> int {
    difference(a.0, b.0) * difference(a.0, b.0) + difference(a.1, b.1) * difference(a.1, b.1)
}

/// Whether an instant lies less than the debounce time after another one, or
/// before it.
pub open spec fn is_soon_after(now: u64, last: u64) -> bool {
    now - last < DEBOUNCE_NANOSECONDS
}

/// Whether a packet reports a touch to the phone.
pub open spec fn is_touch_report(
    packet: ProtoPacket,
    sender: ChannelPacketSender,
    action: PointerAction,
    position: (u32, u32),
    now: u64,
) -> bool {
    &&& packet == sender.proto_packet(MESSAGE_ID_INPUT_REPORT, packet.message)
    &&& packet.message matches ProtoMessage::InputReport(report)
    &&& report.timestamp == now / 1000
    &&& report.touch_event matches Some(touch)
    &&& touch.action == Some(action)
    &&& touch.pointer_data@ == seq![Pointer { x: position.0, y: position.1, pointer_id: 0 }]
}

/// The packet that reports a touch to the phone.
pub fn build_touch_report(
    sender: &ChannelPacketSender,
    action: PointerAction,
    pointer_position: (u32, u32),
    now: u64,
) -> (packet: ProtoPacket)
    ensures
        is_touch_report(packet, *sender, action, pointer_position, now),
{
    let pointer = Pointer { x: pointer_position.0, y: pointer_position.1, pointer_id: 0 };
    let pointer_data: Vec<Pointer> = vec![pointer];
    assert(pointer_data@ =~= seq![pointer]);
    sender.send_proto(
        MESSAGE_ID_INPUT_REPORT,
        ProtoMessage::InputReport(
            InputReport {
                timestamp: now / 1000,
                touch_event: Some(TouchEvent { pointer_data, action: Some(action) }),
            },
        ),
    )
}

fn abs_diff(a: u32, b: u32) -> (diff: u32)
    ensures
        diff == difference(a, b),
{
    if a >= b {
        a - b
    } else {
        b - a
    }
}

impl InputEventReceiverInner {
    /// Whether a move comes so soon after the last one, and so near to it,
    /// that it is left out.
    pub open spec fn is_bounce(self, position: (u32, u32), now: u64) -> bool {
        match self.last_input_move_event {
            Some((last, last_position)) => is_soon_after(now, last) && distance_squared(
                position,
                last_position,
            ) < SMALL_DISTANCE_SQUARED,
            None => false,
        }
    }

    /// Whether the phone is told of a touch.
    pub open spec fn reports(
        self,
        action: PointerAction,
        position: (u32, u32),
        now: u64,
    ) -> bool {
        action is ActionMoved ==> self.pointer_down && !self.is_bounce(position, now)
    }

    /// What is known of the pointer after a touch.
    pub open spec fn after(self, action: PointerAction, position: (u32, u32), now: u64) -> Self {
        match action {
            PointerAction::ActionDown | PointerAction::ActionPointerDown => {
                InputEventReceiverInner { pointer_down: true, ..self }
            },
            PointerAction::ActionUp | PointerAction::ActionPointerUp => {
                InputEventReceiverInner { pointer_down: false, ..self }
            },
            PointerAction::ActionMoved => if self.reports(action, position, now) {
                InputEventReceiverInner { last_input_move_event: Some((now, position)), ..self }
            } else {
                self
            },
        }
    }

    /// Whether the distance that a move has to be tested for can be computed.
    pub open spec fn can_measure(
        self,
        action: PointerAction,
        position: (u32, u32),
        now: u64,
    ) -> bool {
        action is ActionMoved && self.pointer_down ==> match self.last_input_move_event {
            Some((last, last_position)) => is_soon_after(now, last) ==> distance_squared(
                position,
                last_position,
            ) <= u32::MAX,
            None => true,
        }
    }

    /// Whether a touch can be reported: the distance that a move has to be
    /// tested for has to fit in 32 bits.
    pub fn accepts_touch_event(
        &self,
        action: PointerAction,
        pointer_position: (u32, u32),
        now: u64,
    ) -> (accepted: bool)
        ensures
            accepted == self.can_measure(action, pointer_position, now),
    {
        if !matches!(action, PointerAction::ActionMoved) || !self.pointer_down {
            return true;
        }
        match self.last_input_move_event {
            Some((last_timestamp, last_pointer_position)) => {
                let x_diff: u128 = abs_diff(pointer_position.0, last_pointer_position.0) as u128;
                let y_diff: u128 = abs_diff(pointer_position.1, last_pointer_position.1) as u128;
                assert(0 <= x_diff * x_diff <= 0xffff_ffff * 0xffff_ffff && 0 <= y_diff * y_diff
                    <= 0xffff_ffff * 0xffff_ffff) by (nonlinear_arith)
                    requires
                        x_diff <= 0xffff_ffff,
                        y_diff <= 0xffff_ffff,
                ;
                now.saturating_sub(last_timestamp) >= DEBOUNCE_NANOSECONDS || x_diff * x_diff
                    + y_diff * y_diff <= u32::MAX as u128
            },
            None => true,
        }
    }

    pub fn new(packet_sender: ChannelPacketSender) -> (inner: Self)
        ensures
            inner == lifted_pointer(packet_sender),
    {
        InputEventReceiverInner { packet_sender, last_input_move_event: None, pointer_down: false }
    }

    pub fn calc_distance_squared(a: (u32, u32), b: (u32, u32)) -> (distance: u32)
        requires
            distance_squared(a, b) <= u32::MAX,
        ensures
            distance == distance_squared(a, b),
    {
        let x_diff: u32 = abs_diff(a.0, b.0);
        let y_diff: u32 = abs_diff(a.1, b.1);
        assert(x_diff * x_diff >= 0 && y_diff * y_diff >= 0) by (nonlinear_arith);
        x_diff * x_diff + y_diff * y_diff
    }

    /// Takes in a touch; gives the packet that tells the phone of it, unless
    /// it is left out. Moves are left out while the pointer is not down, and
    /// small ones for a while after a reported move.
    pub fn report_touch_event(
        &mut self,
        action: PointerAction,
        pointer_position: (u32, u32),
        now: u64,
    ) -> (packet: Option<ProtoPacket>)
        requires
            old(self).can_measure(action, pointer_position, now),
        ensures
            touch_handled(
                Some(*old(self)),
                action,
                pointer_position,
                now,
                packet,
                Some(*final(self)),
            ),
    {
        match action {
            PointerAction::ActionDown | PointerAction::ActionPointerDown => {
                self.pointer_down = true;
            },
            PointerAction::ActionUp | PointerAction::ActionPointerUp => {
                self.pointer_down = false;
            },
            PointerAction::ActionMoved => {
                if !self.pointer_down {
                    return None;
                }
                if let Some((last_timestamp, last_pointer_position)) = self.last_input_move_event {
                    if now.saturating_sub(last_timestamp) < DEBOUNCE_NANOSECONDS
                        && Self::calc_distance_squared(pointer_position, last_pointer_position)
                        < SMALL_DISTANCE_SQUARED {
                        return None;
                    }
                }
                self.last_input_move_event = Some((now, pointer_position));
            },
        }
        Some(build_touch_report(&self.packet_sender, action, pointer_position, now))
    }
}

/// What a touch comes to, by what is known of the pointer before and after it: a
/// report, unless there is no channel or the touch is left out.
pub open spec fn touch_handled(
    before: Option<InputEventReceiverInner>,
    action: PointerAction,
    position: (u32, u32),
    now: u64,
    packet: Option<ProtoPacket>,
    after: Option<InputEventReceiverInner>,
) -> bool {
    match before {
        Some(inner) => {
            &&& after == Some(inner.after(action, position, now))
            &&& match packet {
                Some(packet) => {
                    &&& inner.reports(action, position, now)
                    &&& is_touch_report(packet, inner.packet_sender, action, position, now)
                },
                None => !inner.reports(action, position, now),
            }
        },
        None => after is None && packet is None,
    }
}

/// What is known of the pointer once a report has been sent. After anything but
/// success nothing is reported any more.
pub open spec fn still_reported(
    inner: Option<InputEventReceiverInner>,
    result: Result<Option<()>, ()>,
) -> Option<InputEventReceiverInner> {
    if result is Ok && result->Ok_0 is Some {
        inner
    } else {
        None
    }
}

/// Where touches are reported to, once the phone has opened a channel for
/// them.
#[derive(Debug)]
pub struct InputEventReceiver {
    inner: Option<InputEventReceiverInner>,
}

impl InputEventReceiver {
    /// What is known of the pointer, while there is a channel.
    pub closed spec fn inner(&self) -> Option<InputEventReceiverInner> {
        self.inner
    }

    pub fn new() -> (receiver: Self)
        ensures
            receiver.inner() is None,
    {
        InputEventReceiver { inner: None }
    }

    /// Takes in that the phone has opened a channel.
    pub fn register_packet_sender(&mut self, packet_sender: ChannelPacketSender)
        ensures
            final(self).inner() == Some(lifted_pointer(packet_sender)),
    {
        self.inner = Some(InputEventReceiverInner::new(packet_sender));
    }

    /// Takes in that the channel is no more.
    pub fn unregister_packet_sender(&mut self)
        ensures
            final(self).inner() is None,
    {
        self.inner = None;
    }

    /// Whether the distance that a move has to be tested for can be computed.
    pub open spec fn can_measure(
        &self,
        action: PointerAction,
        position: (u32, u32),
        now: u64,
    ) -> bool {
        self.inner() matches Some(inner) ==> inner.can_measure(action, position, now)
    }

    /// Whether a touch can be reported.
    pub fn accepts_touch_event(
        &self,
        action: PointerAction,
        pointer_position: (u32, u32),
        now: u64,
    ) -> (accepted: bool)
        ensures
            accepted == self.can_measure(action, pointer_position, now),
    {
        match self.inner {
            Some(inner) => inner.accepts_touch_event(action, pointer_position, now),
            None => true,
        }
    }

    /// Takes in a touch; gives the packet that tells the phone of it, if there
    /// is a channel and the touch is not left out.
    pub fn report_touch_event(
        &mut self,
        action: PointerAction,
        pointer_position: (u32, u32),
        now: u64,
    ) -> (packet: Option<ProtoPacket>)
        requires
            old(self).can_measure(action, pointer_position, now),
        ensures
            touch_handled(
                old(self).inner(),
                action,
                pointer_position,
                now,
                packet,
                final(self).inner(),
            ),
    {
        match self.inner {
            Some(inner) => {
                let mut inner = inner;
                let packet = inner.report_touch_event(action, pointer_position, now);
                self.inner = Some(inner);
                packet
            },
            None => None,
        }
    }

    /// Takes in how the sending of a report went: `Ok(None)` is that the
    /// channel is no more. After anything but success nothing is reported any
    /// more.
    pub fn handle_sent(&mut self, result: Result<Option<()>, ()>)
        ensures
            final(self).inner() == still_reported(old(self).inner(), result),
    {
        match result {
            Ok(Some(_)) => {},
            _ => {
                self.inner = None;
            },
        }
    }
}

/// Of two moves that are reported one after the other, the second comes after
/// the debounce time or is not small.
pub proof fn reported_moves_are_apart(
    inner: InputEventReceiverInner,
    first: (u64, (u32, u32)),
    second: (u64, (u32, u32)),
)
    requires
        inner.reports(PointerAction::ActionMoved, first.1, first.0),
        inner.after(PointerAction::ActionMoved, first.1, first.0).reports(
            PointerAction::ActionMoved,
            second.1,
            second.0,
        ),
    ensures
        second.0 >= first.0 + DEBOUNCE_NANOSECONDS || distance_squared(second.1, first.1)
            >= SMALL_DISTANCE_SQUARED,
{
}

/// Moves that are left out do not change what is known of the pointer, so a
/// slow drag is reported once it has gone far enough in sum.
pub proof fn left_out_moves_change_nothing(
    inner: InputEventReceiverInner,
    position: (u32, u32),
    now: u64,
)
    requires
        !inner.reports(PointerAction::ActionMoved, position, now),
    ensures
        inner.after(PointerAction::ActionMoved, position, now) == inner,
{
}

/// No move is reported between the lifting of the pointer and its next touch.
pub proof fn a_lifted_pointer_does_not_move(
    inner: InputEventReceiverInner,
    lifted: PointerAction,
    position: (u32, u32),
    now: u64,
    moved: (u32, u32),
    later: u64,
)
    requires
        lifted is ActionUp || lifted is ActionPointerUp,
    ensures
        !inner.after(lifted, position, now).reports(PointerAction::ActionMoved, moved, later),
{
}

/// The service for a touch screen.
pub struct InputService {
    service_id: u8,
    display_size: (u32, u32),
}

/// What is said of a touch screen of the given size.
pub open spec fn touch_screen(display_size: (u32, u32)) -> TouchScreen {
    TouchScreen {
        width: display_size.0 as i32,
        height: display_size.1 as i32,
        screen_type: Some(TouchScreenType::Capacitive),
        is_secondary: Some(false),
    }
}

/// What the phone is told of the touch screen.
pub open spec fn screen_descriptor(service_id: u8, display_size: (u32, u32)) -> ServiceView {
    ServiceView {
        input_source_service: Some(
            InputSourceServiceView { touchscreen: seq![touch_screen(display_size)] },
        ),
        ..bare_service(service_id as i32)
    }
}

impl InputService {
    pub fn new(service_id: u8, display_size: (u32, u32)) -> (service: Self)
        ensures
            service.descriptor() == screen_descriptor(service_id, display_size),
    {
        InputService { service_id, display_size }
    }

    /// The answer to a packet on the channel of the service.
    pub fn answer(&self, sender: &ChannelPacketSender, packet: &Packet) -> (response: Option<
        ProtoPacket,
    >)
        requires
            packet@.has_message_id(),
        ensures
            response == key_binding_answer(*sender, packet@),
    {
        answer_key_binding_request(sender, packet)
    }
}

impl Service for InputService {
    closed spec fn descriptor(&self) -> ServiceView {
        screen_descriptor(self.service_id, self.display_size)
    }

    fn get_id(&self) -> (id: i32) {
        self.service_id as i32
    }

    fn get_descriptor(&self) -> (descriptor: protos::Service) {
        let mut descriptor = protos::Service::bare(self.get_id());
        let screen = TouchScreen {
            width: #[verifier::truncate] (self.display_size.0 as i32),
            height: #[verifier::truncate] (self.display_size.1 as i32),
            screen_type: Some(TouchScreenType::Capacitive),
            is_secondary: Some(false),
        };
        let touchscreen: Vec<TouchScreen> = vec![screen];
        assert(touchscreen@ =~= seq![touch_screen(self.display_size)]);
        descriptor.input_source_service = Some(InputSourceService { touchscreen });
        descriptor
    }
}

/// The phone is told, under the number of the service, of one touch screen and of
/// nothing else: it has the size of the display, is the main one, and is touched
/// with the finger.
pub proof fn the_screen_is_described_as_it_is(service_id: u8, display_size: (u32, u32))
    requires
        display_size.0 <= i32::MAX,
        display_size.1 <= i32::MAX,
    ensures
        ({
            let descriptor = screen_descriptor(service_id, display_size);
            &&& descriptor.id == service_id
            &&& descriptor.sensor_source_service is None
            &&& descriptor.media_sink_service is None
            &&& descriptor.media_source_service is None
            &&& descriptor.input_source_service matches Some(source)
            &&& source.touchscreen.len() == 1
            &&& source.touchscreen[0].width == display_size.0
            &&& source.touchscreen[0].height == display_size.1
            &&& source.touchscreen[0].screen_type == Some(TouchScreenType::Capacitive)
            &&& source.touchscreen[0].is_secondary == Some(false)
        }),
{
}

/// All touches are reported but moves. A move is reported while the pointer is
/// down, unless it comes within 30 milliseconds of the last one that was reported
/// and less than 15 away from it.
pub proof fn small_quick_moves_are_left_out(
    inner: InputEventReceiverInner,
    action: PointerAction,
    position: (u32, u32),
    now: u64,
)
    ensures
        !(action is ActionMoved) ==> inner.reports(action, position, now),
        action is ActionMoved ==> (inner.reports(action, position, now) <==> inner.pointer_down && (
        inner.last_input_move_event matches Some((last, place)) ==> {
            let x = position.0 - place.0;
            let y = position.1 - place.1;
            ||| now >= last + 30_000_000
            ||| x * x + y * y >= 15 * 15
        })),
{
    if let Some((_, place)) = inner.last_input_move_event {
        lemma_distance(position, place);
    }
}

/// The distance goes by the differences of the coordinates, whatever their signs.
proof fn lemma_distance(a: (u32, u32), b: (u32, u32))
    ensures
        distance_squared(a, b) == (a.0 - b.0) * (a.0 - b.0) + (a.1 - b.1) * (a.1 - b.1),
{
    let x = a.0 - b.0;
    let y = a.1 - b.1;
    assert(x * x == (-x) * (-x) && y * y == (-y) * (-y)) by (nonlinear_arith);
}

/// The distance of two points is the same in both directions, that of a point to
/// itself is none, and its square is the sum of the squares of the differences.
pub proof fn distances_are_euclidean(a: (u32, u32), b: (u32, u32))
    ensures
        distance_squared(a, b) == distance_squared(b, a),
        distance_squared(a, a) == 0,
        distance_squared(a, b) == (a.0 - b.0) * (a.0 - b.0) + (a.1 - b.1) * (a.1 - b.1),
{
    lemma_distance(a, b);
    lemma_distance(b, a);
    let x = a.0 - b.0;
    let y = a.1 - b.1;
    assert(x * x == (-x) * (-x) && y * y == (-y) * (-y)) by (nonlinear_arith);
}

/// The pointer is down from the touch of a finger to its lifting. A move that is
/// reported is the one that the next is held against; no other touch changes that.
/// The channel stays the same.
pub proof fn the_pointer_is_followed(
    inner: InputEventReceiverInner,
    action: PointerAction,
    position: (u32, u32),
    now: u64,
)
    ensures
        ({
            let after = inner.after(action, position, now);
            let down = action is ActionDown || action is ActionPointerDown;
            let up = action is ActionUp || action is ActionPointerUp;
            &&& after.packet_sender == inner.packet_sender
            &&& after.pointer_down <==> down || !up && inner.pointer_down
            &&& after.last_input_move_event == if action is ActionMoved && inner.reports(
                action,
                position,
                now,
            ) {
                Some((now, position))
            } else {
                inner.last_input_move_event
            }
        }),
{
}

/// A touch can be reported unless the square of the distance that has to be looked
/// at does not fit in 32 bits. It is looked at for a move of a pointer that is down,
/// within 30 milliseconds of the last one that was reported.
pub proof fn only_far_moves_cannot_be_measured(
    inner: InputEventReceiverInner,
    action: PointerAction,
    position: (u32, u32),
    now: u64,
)
    ensures
        inner.can_measure(action, position, now) <==> !({
            &&& action is ActionMoved
            &&& inner.pointer_down
            &&& inner.last_input_move_event matches Some((last, place))
            &&& now < last + 30_000_000
            &&& (position.0 - place.0) * (position.0 - place.0) + (position.1 - place.1) * (
            position.1 - place.1) > u32::MAX
        }),
{
    if let Some((_, place)) = inner.last_input_move_event {
        lemma_distance(position, place);
    }
}

/// A report goes out on the channel of the service as message 0x8001. It has the
/// time in microseconds, and one pointer, with the number 0, at the place of the
/// touch.
pub proof fn a_report_tells_of_the_touch(
    packet: ProtoPacket,
    sender: ChannelPacketSender,
    action: PointerAction,
    position: (u32, u32),
    now: u64,
)
    requires
        is_touch_report(packet, sender, action, position, now),
    ensures
        packet.channel_id == sender.channel_id,
        packet.frame_type is ChannelSpecific,
        packet.encrypted,
        packet.message_id == 0x8001,
        packet.message is InputReport,
        ({
            let report = packet.message->InputReport_0;
            let touch = report.touch_event->0;
            &&& report.timestamp * 1000 <= now < (report.timestamp + 1) * 1000
            &&& report.touch_event is Some
            &&& touch.action == Some(action)
            &&& touch.pointer_data@.len() == 1
            &&& touch.pointer_data@[0].x == position.0
            &&& touch.pointer_data@[0].y == position.1
            &&& touch.pointer_data@[0].pointer_id == 0
        }),
{
}

/// Where there is a channel, a touch is reported on it unless it is a move that is
/// left out, and the pointer is followed. Where there is none, nothing is reported
/// and nothing is remembered.
pub proof fn touches_are_reported_on_the_channel(
    before: Option<InputEventReceiverInner>,
    action: PointerAction,
    position: (u32, u32),
    now: u64,
    packet: Option<ProtoPacket>,
    after: Option<InputEventReceiverInner>,
)
    requires
        touch_handled(before, action, position, now, packet, after),
    ensures
        before is None ==> packet is None && after is None,
        before matches Some(inner) ==> {
            &&& after == Some(inner.after(action, position, now))
            &&& packet is Some <==> inner.reports(action, position, now)
            &&& !(action is ActionMoved) ==> packet is Some
        },
        packet matches Some(packet) ==> {
            &&& packet.channel_id == before->0.packet_sender.channel_id
            &&& packet.message_id == 0x8001
            &&& packet.message matches ProtoMessage::InputReport(report)
            &&& report.timestamp == now / 1000
            &&& report.touch_event matches Some(touch)
            &&& touch.action == Some(action)
            &&& touch.pointer_data@.len() == 1
            &&& touch.pointer_data@[0].x == position.0
            &&& touch.pointer_data@[0].y == position.1
        },
{
}

/// A channel that has taken a report is reported on further; one that is no more,
/// or fails, is not.
pub proof fn a_lost_channel_is_given_up(
    inner: Option<InputEventReceiverInner>,
    result: Result<Option<()>, ()>,
)
    ensures
        result matches Ok(Some(_)) ==> still_reported(inner, result) == inner,
        result is Err ==> still_reported(inner, result) is None,
        result is Ok && result->Ok_0 is None ==> still_reported(inner, result) is None,
{
}

/// On a new channel no move is reported before the screen is touched, and the first
/// one after that is, wherever and whenever it comes.
pub proof fn the_first_move_after_a_touch_is_reported(
    packet_sender: ChannelPacketSender,
    touched: PointerAction,
    place: (u32, u32),
    then: u64,
    position: (u32, u32),
    now: u64,
)
    requires
        touched is ActionDown || touched is ActionPointerDown,
    ensures
        lifted_pointer(packet_sender).packet_sender == packet_sender,
        !lifted_pointer(packet_sender).reports(PointerAction::ActionMoved, position, now),
        lifted_pointer(packet_sender).after(touched, place, then).reports(
            PointerAction::ActionMoved,
            position,
            now,
        ),
{
}

} // verus!
