//! The link to the phone: which device is talked to, and how its two
//! directions are kept going.
use crate::aoa::{
    aoa_endpoints, find_aoa_endpoints, is_aoa_device, AoaEndpoints, ConfigurationDescriptor,
    AOA_PID_V1, AOA_PID_V2, AOA_VID,
};
use crate::frame::{encoded_frame, AAPFrame, AAPFrameCodec};
use crate::sequences::{concat, views};
use crate::usb_stream::{are_full, UsbWriter};
use vstd::prelude::*;

verus! {

/// What comes from the phone.
#[derive(Debug)]
pub enum IncomingEvent {
    Connected,
    Closed,
    Frame(AAPFrame),
}

/// What is to be done to the phone.
#[derive(Debug)]
pub enum OutgoingEvent {
    Close,
    Frame(AAPFrame),
}

/// What has come from the phone; that nothing ever will counts as its end.
pub open spec fn event_received(event: Option<IncomingEvent>) -> IncomingEvent {
    match event {
        Some(event) => event,
        None => IncomingEvent::Closed,
    }
}

/// What has come from the phone; that nothing ever will counts as its end.
pub fn received_event(event: Option<IncomingEvent>) -> (received: IncomingEvent)
    ensures
        received == event_received(event),
{
    match event {
        Some(event) => event,
        None => IncomingEvent::Closed,
    }
}

/// What is to be done with a device that has been plugged in.
#[derive(Debug, Clone, Copy, PartialEq, Eq, Structural)]
pub enum DeviceDecision {
    /// A phone is being talked to already.
    Ignore,
    /// It is a phone in accessory mode.
    Talk,
    /// It may be a phone that can be switched to accessory mode.
    Switch,
}

/// What is to be done with a device that has been plugged in, by the phone that is
/// being talked to, and by whether that connection has come to its end.
pub open spec fn device_decision(
    connected: Option<u64>,
    vendor_id: u16,
    product_id: u16,
    terminated: bool,
) -> DeviceDecision {
    if connected is Some && !terminated {
        DeviceDecision::Ignore
    } else if vendor_id == AOA_VID && (product_id == AOA_PID_V1 || product_id == AOA_PID_V2) {
        DeviceDecision::Talk
    } else {
        DeviceDecision::Switch
    }
}

/// Whether a connection ends with a device that has been unplugged, and which phone
/// is talked to after that.
pub open spec fn device_unplugged(connected: Option<u64>, device_id: u64) -> (bool, Option<u64>) {
    if connected == Some(device_id) {
        (true, None)
    } else {
        (false, connected)
    }
}

/// What comes next when a phone in accessory mode is taken over.
#[derive(Debug, Clone, Copy, PartialEq, Eq, Structural)]
pub enum PhoneTakeover {
    /// Open the device, and read its descriptors.
    Open,
    /// Give the phone some time.
    Wait(AoaEndpoints),
    /// Claim the interface that the endpoints belong to.
    Claim(AoaEndpoints),
    /// Throw away what has been left to be sent by an earlier connection.
    EmptyQueue(AoaEndpoints),
    /// Start to read from the one endpoint and to write to the other.
    StartTasks(AoaEndpoints),
    /// Nothing is left to be done.
    Done,
}

impl PhoneTakeover {
    /// What comes after a step. Where the device was opened, `reply` holds its
    /// descriptors. A device that cannot be opened or claimed is a failure; one
    /// without a pair of endpoints is left alone.
    pub open spec fn after(self, reply: Result<Seq<ConfigurationDescriptor>, ()>) -> Result<
        PhoneTakeover,
        (),
    > {
        match self {
            PhoneTakeover::Open => match reply {
                Ok(configurations) => match aoa_endpoints(configurations) {
                    Some(endpoints) => Ok(PhoneTakeover::Wait(endpoints)),
                    None => Ok(PhoneTakeover::Done),
                },
                Err(_) => Err(()),
            },
            PhoneTakeover::Wait(endpoints) => Ok(PhoneTakeover::Claim(endpoints)),
            PhoneTakeover::Claim(endpoints) => match reply {
                Ok(_) => Ok(PhoneTakeover::EmptyQueue(endpoints)),
                Err(_) => Err(()),
            },
            PhoneTakeover::EmptyQueue(endpoints) => Ok(PhoneTakeover::StartTasks(endpoints)),
            PhoneTakeover::StartTasks(_) => Ok(PhoneTakeover::Done),
            PhoneTakeover::Done => Ok(PhoneTakeover::Done),
        }
    }

    /// Whether a step, with this reply to it, makes the phone the one that is
    /// talked to.
    pub open spec fn connects(self, reply: Result<Seq<ConfigurationDescriptor>, ()>) -> bool {
        self is Claim && reply is Ok
    }
}

/// The descriptors that a reply holds.
pub open spec fn reply_view(reply: Result<Vec<ConfigurationDescriptor>, ()>) -> Result<
    Seq<ConfigurationDescriptor>,
    (),
> {
    match reply {
        Ok(configurations) => Ok(configurations@),
        Err(_) => Err(()),
    }
}

/// Which phone is being talked to. Devices are told apart by numbers.
pub struct UsbInternalState {
    connected_device: Option<u64>,
}

impl UsbInternalState {
    pub closed spec fn connected(&self) -> Option<u64> {
        self.connected_device
    }

    pub fn new() -> (state: Self)
        ensures
            state.connected() is None,
    {
        UsbInternalState { connected_device: None }
    }

    pub fn connected_device(&self) -> (device: Option<u64>)
        ensures
            device == self.connected(),
    {
        self.connected_device
    }

    /// Decides on a device that has been plugged in. `terminated` tells whether
    /// the connection to the phone, if there is one, has come to its end.
    pub fn handle_connected_device(
        &self,
        vendor_id: u16,
        product_id: u16,
        terminated: bool,
    ) -> (decision: DeviceDecision)
        ensures
            decision == device_decision(self.connected(), vendor_id, product_id, terminated),
    {
        if self.connected_device.is_some() && !terminated {
            return DeviceDecision::Ignore;
        }
        if is_aoa_device(vendor_id, product_id) {
            DeviceDecision::Talk
        } else {
            DeviceDecision::Switch
        }
    }

    /// Takes in the reply to a step of the take-over of a phone, and gives the
    /// step that comes next. The phone is remembered once it has been claimed.
    pub fn advance_takeover(
        &mut self,
        device_id: u64,
        step: PhoneTakeover,
        reply: Result<Vec<ConfigurationDescriptor>, ()>,
    ) -> (next: Result<PhoneTakeover, ()>)
        requires
            step.connects(reply_view(reply)) ==> old(self).connected() is None,
        ensures
            next == step.after(reply_view(reply)),
            final(self).connected() == (if step.connects(reply_view(reply)) {
                Some(device_id)
            } else {
                old(self).connected()
            }),
    {
        match step {
            PhoneTakeover::Open => match reply {
                Ok(configurations) => match find_aoa_endpoints(&configurations) {
                    Some(endpoints) => Ok(PhoneTakeover::Wait(endpoints)),
                    None => Ok(PhoneTakeover::Done),
                },
                Err(_) => Err(()),
            },
            PhoneTakeover::Wait(endpoints) => Ok(PhoneTakeover::Claim(endpoints)),
            PhoneTakeover::Claim(endpoints) => match reply {
                Ok(_) => {
                    self.connect(device_id);
                    Ok(PhoneTakeover::EmptyQueue(endpoints))
                },
                Err(_) => Err(()),
            },
            PhoneTakeover::EmptyQueue(endpoints) => Ok(PhoneTakeover::StartTasks(endpoints)),
            PhoneTakeover::StartTasks(_) => Ok(PhoneTakeover::Done),
            PhoneTakeover::Done => Ok(PhoneTakeover::Done),
        }
    }

    /// Remembers that a phone is being talked to.
    pub fn connect(&mut self, device_id: u64)
        requires
            old(self).connected() is None,
        ensures
            final(self).connected() == Some(device_id),
    {
        self.connected_device = Some(device_id);
    }

    /// Takes in that a device has been unplugged; gives whether the connection
    /// ends with it.
    pub fn handle_disconnected_device(&mut self, device_id: u64) -> (ended: bool)
        ensures
            (ended, final(self).connected()) == device_unplugged(old(self).connected(), device_id),
    {
        if let Some(connected_device_id) = self.connected_device {
            if connected_device_id == device_id {
                self.connected_device = None;
                return true;
            }
        }
        false
    }
}

/// How far the take-over of a phone has come after a number of replies, and which
/// phone is talked to then.
pub open spec fn takeover(
    connected: Option<u64>,
    device_id: u64,
    replies: Seq<Result<Seq<ConfigurationDescriptor>, ()>>,
) -> (Result<PhoneTakeover, ()>, Option<u64>)
    decreases replies.len(),
{
    if replies.len() == 0 {
        (Ok(PhoneTakeover::Open), connected)
    } else {
        match takeover(connected, device_id, replies.drop_last()) {
            (Ok(step), now) => (
                step.after(replies.last()),
                if step.connects(replies.last()) {
                    Some(device_id)
                } else {
                    now
                },
            ),
            failed => failed,
        }
    }
}

/// Everything stays as it was until a phone has been claimed, and so where the
/// take-over fails or the phone has no endpoints to talk to.
pub proof fn a_failed_takeover_changes_nothing(
    connected: Option<u64>,
    device_id: u64,
    replies: Seq<Result<Seq<ConfigurationDescriptor>, ()>>,
)
    ensures
        ({
            let (reached, now) = takeover(connected, device_id, replies);
            match reached {
                Err(_) => now == connected,
                Ok(PhoneTakeover::Open)
                | Ok(PhoneTakeover::Wait(_))
                | Ok(PhoneTakeover::Claim(_)) => now == connected,
                Ok(PhoneTakeover::EmptyQueue(_)) | Ok(PhoneTakeover::StartTasks(_)) => now == Some(
                    device_id,
                ),
                Ok(PhoneTakeover::Done) => now == (if aoa_endpoints(replies[0]->Ok_0) is Some {
                    Some(device_id)
                } else {
                    connected
                }),
            }
        }),
    decreases replies.len(),
{
    if replies.len() > 0 {
        let earlier = replies.drop_last();
        a_failed_takeover_changes_nothing(connected, device_id, earlier);
        if earlier.len() > 0 {
            lemma_takeover_begins_with_open(connected, device_id, earlier);
            assert(earlier[0] == replies[0]);
        } else {
            assert(takeover(connected, device_id, earlier).0 == Ok::<_, ()>(PhoneTakeover::Open));
        }
    }
}

/// A take-over has opened the device first, and gone on with the endpoints that
/// were found in its descriptors.
proof fn lemma_takeover_begins_with_open(
    connected: Option<u64>,
    device_id: u64,
    replies: Seq<Result<Seq<ConfigurationDescriptor>, ()>>,
)
    requires
        replies.len() > 0,
    ensures
        match takeover(connected, device_id, replies).0 {
            Err(_) | Ok(PhoneTakeover::Done) => true,
            Ok(PhoneTakeover::Open) => false,
            Ok(PhoneTakeover::Wait(endpoints))
            | Ok(PhoneTakeover::Claim(endpoints))
            | Ok(PhoneTakeover::EmptyQueue(endpoints))
            | Ok(PhoneTakeover::StartTasks(endpoints)) => {
                &&& replies[0] is Ok
                &&& aoa_endpoints(replies[0]->Ok_0) == Some(endpoints)
            },
        },
    decreases replies.len(),
{
    if replies.len() > 1 {
        lemma_takeover_begins_with_open(connected, device_id, replies.drop_last());
        assert(replies.drop_last()[0] == replies[0]);
    } else {
        assert(takeover(connected, device_id, replies.drop_last()).0 == Ok::<_, ()>(
            PhoneTakeover::Open,
        ));
    }
}

/// The tasks that talk to a phone are started as the fifth step, on the endpoints
/// that were found in its descriptors. The device has then been opened, the
/// interface claimed, and directly before, the queue emptied: what an earlier
/// connection has left there is not sent to the phone.
pub proof fn the_queue_is_empty_when_tasks_start(
    connected: Option<u64>,
    device_id: u64,
    replies: Seq<Result<Seq<ConfigurationDescriptor>, ()>>,
    endpoints: AoaEndpoints,
)
    requires
        takeover(connected, device_id, replies).0 == Ok::<_, ()>(
            PhoneTakeover::StartTasks(endpoints),
        ),
    ensures
        replies.len() == 4,
        replies[0] is Ok,
        aoa_endpoints(replies[0]->Ok_0) == Some(endpoints),
        takeover(connected, device_id, replies.take(1)).0 == Ok::<_, ()>(
            PhoneTakeover::Wait(endpoints),
        ),
        takeover(connected, device_id, replies.take(2)).0 == Ok::<_, ()>(
            PhoneTakeover::Claim(endpoints),
        ),
        replies[2] is Ok,
        takeover(connected, device_id, replies.take(3)).0 == Ok::<_, ()>(
            PhoneTakeover::EmptyQueue(endpoints),
        ),
{
    assert(replies.len() > 0);
    let emptied = replies.drop_last();
    assert(takeover(connected, device_id, emptied).0 == Ok::<_, ()>(
        PhoneTakeover::EmptyQueue(endpoints),
    ));
    let claimed = emptied.drop_last();
    assert(takeover(connected, device_id, claimed).0 == Ok::<_, ()>(
        PhoneTakeover::Claim(endpoints),
    ));
    let waited = claimed.drop_last();
    assert(takeover(connected, device_id, waited).0 == Ok::<_, ()>(
        PhoneTakeover::Wait(endpoints),
    ));
    let opened = waited.drop_last();
    assert(takeover(connected, device_id, opened).0 == Ok::<_, ()>(PhoneTakeover::Open));
    if opened.len() > 0 {
        lemma_takeover_begins_with_open(connected, device_id, opened);
    }
    assert(replies.take(3) =~= emptied);
    assert(replies.take(2) =~= claimed);
    assert(replies.take(1) =~= waited);
}

/// What follows from an attempt to read a frame.
#[derive(Debug)]
pub struct ReceiveStep {
    /// What the rest of the program is told.
    pub event: IncomingEvent,
    /// Whether the connection is to be ended.
    pub terminate: bool,
    /// Whether nothing more is read.
    pub stop: bool,
}

/// What follows from an attempt to read a frame.
pub open spec fn receive_step(result: Result<AAPFrame, ()>, terminated: bool) -> ReceiveStep {
    match result {
        Ok(frame) => ReceiveStep {
            event: IncomingEvent::Frame(frame),
            terminate: false,
            stop: false,
        },
        Err(_) => ReceiveStep {
            event: IncomingEvent::Closed,
            terminate: !terminated,
            stop: true,
        },
    }
}

/// What the rest of the program is told when a phone begins to be read from.
pub fn begin_receiving() -> (event: IncomingEvent)
    ensures
        event == IncomingEvent::Connected,
{
    IncomingEvent::Connected
}

/// Decides what follows from an attempt to read a frame. `terminated` tells
/// whether the connection has come to its end already.
pub fn handle_received_frame(result: Result<AAPFrame, ()>, terminated: bool) -> (step: ReceiveStep)
    ensures
        step == receive_step(result, terminated),
{
    match result {
        Err(_) => ReceiveStep { event: IncomingEvent::Closed, terminate: !terminated, stop: true },
        Ok(frame) => ReceiveStep {
            event: IncomingEvent::Frame(frame),
            terminate: false,
            stop: false,
        },
    }
}

/// How far the reading from a phone has come.
pub struct Reception {
    /// What the rest of the program has been told.
    pub events: Seq<IncomingEvent>,
    /// Whether nothing more is read.
    pub stopped: bool,
    /// Whether the connection has come to its end.
    pub terminated: bool,
}

/// How far the reading has come after a number of attempts. For each of them,
/// `ended` tells whether the connection was ended from elsewhere before it.
pub open spec fn reception(
    results: Seq<Result<AAPFrame, ()>>,
    ended: Seq<bool>,
) -> Reception
    decreases results.len(),
{
    if results.len() == 0 {
        Reception { events: seq![IncomingEvent::Connected], stopped: false, terminated: false }
    } else {
        let before = reception(results.drop_last(), ended.drop_last());
        if before.stopped {
            before
        } else {
            let terminated = before.terminated || ended.last();
            let step = receive_step(results.last(), terminated);
            Reception {
                events: before.events.push(step.event),
                stopped: step.stop,
                terminated: terminated || step.terminate,
            }
        }
    }
}

/// As long as frames are read, the rest of the program is told that the phone is
/// there, and then of the frames in their order.
pub proof fn frames_are_reported_in_order(results: Seq<Result<AAPFrame, ()>>, ended: Seq<bool>)
    requires
        results.len() == ended.len(),
        forall|i: int| 0 <= i < results.len() ==> (#[trigger] results[i]) is Ok,
    ensures
        ({
            let reached = reception(results, ended);
            &&& !reached.stopped
            &&& reached.events == seq![IncomingEvent::Connected] + results.map_values(
                |result: Result<AAPFrame, ()>| IncomingEvent::Frame(result->Ok_0),
            )
        }),
    decreases results.len(),
{
    let frames = |result: Result<AAPFrame, ()>| IncomingEvent::Frame(result->Ok_0);
    let connected = seq![IncomingEvent::Connected];
    if results.len() == 0 {
        assert(connected + results.map_values(frames) =~= connected);
    } else {
        let earlier = results.drop_last();
        frames_are_reported_in_order(earlier, ended.drop_last());
        assert(results.last() is Ok);
        assert(reception(results, ended).events =~= connected + results.map_values(frames));
    }
}

/// The first failure ends the reading: the rest of the program is told that the
/// phone is there, of the frames read before the failure in their order, and
/// once that it is gone. Whatever is tried after that adds nothing. The
/// connection has then come to its end.
pub proof fn a_failure_closes_the_reception_once(
    frames: Seq<Result<AAPFrame, ()>>,
    later: Seq<Result<AAPFrame, ()>>,
    ended: Seq<bool>,
)
    requires
        ended.len() == frames.len() + 1 + later.len(),
        forall|i: int| 0 <= i < frames.len() ==> (#[trigger] frames[i]) is Ok,
    ensures
        ({
            let reached = reception(frames + seq![Err(())] + later, ended);
            &&& reached.stopped
            &&& reached.terminated
            &&& reached.events == (seq![IncomingEvent::Connected] + frames.map_values(
                |result: Result<AAPFrame, ()>| IncomingEvent::Frame(result->Ok_0),
            )).push(IncomingEvent::Closed)
        }),
    decreases later.len(),
{
    let results = frames + seq![Err(())] + later;
    if later.len() == 0 {
        assert(results.drop_last() =~= frames);
        assert(results.last() is Err);
        frames_are_reported_in_order(frames, ended.drop_last());
    } else {
        assert(results.drop_last() =~= frames + seq![Err(())] + later.drop_last());
        a_failure_closes_the_reception_once(frames, later.drop_last(), ended.drop_last());
    }
}

/// What follows from an [`OutgoingEvent`].
#[derive(Debug)]
pub enum SendStep {
    /// Send these packets, one after the other.
    Send(Vec<Vec<u8>>),
    /// End the connection.
    Terminate,
    /// Nothing more will be sent.
    Stop,
}

/// What follows from what is to be done to the phone. A frame is sent in packets of
/// which the last is not full.
pub open spec fn outgoing_handled(
    event: Option<OutgoingEvent>,
    before: UsbWriter,
    step: SendStep,
    after: UsbWriter,
) -> bool {
    &&& after.packet_size() == before.packet_size()
    &&& match event {
        Some(OutgoingEvent::Frame(frame)) => {
            &&& step matches SendStep::Send(packets)
            &&& packets@.len() > 0
            &&& are_full(packets@.drop_last(), before.packet_size())
            &&& packets@.last()@.len() < before.packet_size()
            &&& concat(views(packets@)) == before.buffered() + encoded_frame(frame@)
            &&& after.buffered() == Seq::<u8>::empty()
        },
        Some(OutgoingEvent::Close) => {
            &&& step == SendStep::Terminate
            &&& after == before
        },
        None => {
            &&& step == SendStep::Stop
            &&& after == before
        },
    }
}

/// Decides what follows from what is to be done to the phone.
pub fn handle_outgoing_event(
    event: Option<OutgoingEvent>,
    codec: &mut AAPFrameCodec,
    writer: &mut UsbWriter,
) -> (step: SendStep)
    requires
        old(writer).wf(),
    ensures
        final(writer).wf(),
        outgoing_handled(event, *old(writer), step, *final(writer)),
{
    match event {
        Some(OutgoingEvent::Frame(frame)) => SendStep::Send(writer.frame_packets(codec, frame)),
        Some(OutgoingEvent::Close) => SendStep::Terminate,
        None => SendStep::Stop,
    }
}

/// A device is left alone exactly as long as another one is talked to. Else it is
/// talked to where it is a phone in accessory mode, by the numbers 0x18d1 and
/// 0x2d00 or 0x2d01, and is to be switched to that mode where it is not.
pub proof fn one_phone_is_talked_to_at_a_time(
    connected: Option<u64>,
    vendor_id: u16,
    product_id: u16,
    terminated: bool,
)
    ensures
        ({
            let decision = device_decision(connected, vendor_id, product_id, terminated);
            let accessory = vendor_id == 0x18d1 && (product_id == 0x2d00 || product_id == 0x2d01);
            &&& decision is Ignore <==> connected is Some && !terminated
            &&& decision is Talk <==> accessory && (connected is None || terminated)
            &&& decision is Switch <==> !accessory && (connected is None || terminated)
        }),
{
}

/// A frame that has been read is passed on, and the reading goes on. A failure is
/// passed on as the end of the link, ends the reading, and ends the connection
/// unless that has come to its end already.
pub proof fn only_a_failure_ends_the_reading(result: Result<AAPFrame, ()>, terminated: bool)
    ensures
        ({
            let step = receive_step(result, terminated);
            &&& result matches Ok(frame) ==> step.event == IncomingEvent::Frame(frame)
                && !step.stop && !step.terminate
            &&& result is Err ==> step.event is Closed && step.stop && (step.terminate
                <==> !terminated)
        }),
{
}

/// What comes is passed on as it is, and the end of the queue is the end of the
/// link.
pub proof fn events_are_passed_on(event: Option<IncomingEvent>)
    ensures
        event matches Some(event) ==> event_received(Some(event)) == event,
        event_received(None) is Closed,
{
}

/// A connection ends with the device that it is a connection to, and with no other;
/// after that, no phone is talked to.
pub proof fn a_connection_ends_with_its_device(connected: Option<u64>, device_id: u64)
    ensures
        device_unplugged(connected, device_id).0 <==> connected is Some && connected->0
            == device_id,
        device_unplugged(connected, device_id).0 ==> device_unplugged(connected, device_id).1
            is None,
        !device_unplugged(connected, device_id).0 ==> device_unplugged(connected, device_id).1
            == connected,
{
}

/// To close a connection ends it, and the end of the queue ends the sending; what
/// has not been sent stays then. A frame is sent at once and in full: behind what
/// was left, its bytes follow in their order, in full packets and one that is not
/// full, which tells the phone that there are no more.
pub proof fn frames_are_sent_at_once(
    event: Option<OutgoingEvent>,
    before: UsbWriter,
    step: SendStep,
    after: UsbWriter,
    index: int,
)
    requires
        outgoing_handled(event, before, step, after),
        before.wf(),
    ensures
        event matches Some(OutgoingEvent::Close) ==> step is Terminate && after == before,
        event is None ==> step is Stop && after == before,
        event matches Some(OutgoingEvent::Frame(frame)) ==> {
            let packets = step->Send_0@;
            &&& step is Send
            &&& packets.len() > 0
            &&& concat(views(packets)) == before.buffered() + encoded_frame(frame@)
            &&& 0 <= index < packets.len() ==> (packets[index]@.len() == before.packet_size()
                <==> index < packets.len() - 1)
            &&& 0 <= index < packets.len() ==> packets[index]@.len() <= before.packet_size()
            &&& after.buffered().len() == 0
        },
        after.packet_size() == before.packet_size(),
{
    if let Some(OutgoingEvent::Frame(_)) = event {
        let packets = step->Send_0@;
        if 0 <= index < packets.len() - 1 {
            assert(packets.drop_last()[index] == packets[index]);
        }
    }
}

} // verus!
