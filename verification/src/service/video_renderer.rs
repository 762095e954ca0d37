//! The picture: what the phone is told of it, and what the pointer does on it.
use crate::packet_router::ChannelPacketSender;
use crate::protos::{
    MediaCodecType, MediaSinkService, MediaSinkServiceView, PointerAction, ProtoPacket,
    VideoCodecResolutionType, VideoConfiguration, VideoFocusMode, VideoFocusNotification,
    VideoFrameRateType,
};
use crate::service::input_service::{build_touch_report, is_touch_report};
use crate::service::media_sink::StreamRendererFactory;
use vstd::prelude::*;

verus! {

/// Knows how video streams are played.
#[derive(Debug)]
pub struct VideoStreamRendererFactory {}

impl VideoStreamRendererFactory {
    pub fn new() -> (factory: Self)
        ensures
            factory == (VideoStreamRendererFactory {  }),
    {
        VideoStreamRendererFactory {  }
    }
}

#[derive(Debug, Clone, Copy, PartialEq, Eq, Structural)]
pub struct VideoSpec {
    pub resolution: VideoCodecResolutionType,
    pub frame_rate: VideoFrameRateType,
    pub dpi: u32,
}

/// The width and the height of the picture in pixels.
pub open spec fn picture_size(resolution: VideoCodecResolutionType) -> (u32, u32) {
    match resolution {
        VideoCodecResolutionType::Video800x480 => (800u32, 400u32),
        VideoCodecResolutionType::Video1280x720 => (1280u32, 720u32),
        VideoCodecResolutionType::Video1920x1080 => (1920u32, 1080u32),
        VideoCodecResolutionType::Video2560x1440 => (2560u32, 1440u32),
        VideoCodecResolutionType::Video3840x2160 => (3840u32, 2160u32),
        VideoCodecResolutionType::Video720x1280 => (720u32, 1280u32),
        VideoCodecResolutionType::Video1080x1920 => (1080u32, 1920u32),
        VideoCodecResolutionType::Video1440x2560 => (1440u32, 2560u32),
        VideoCodecResolutionType::Video2160x3840 => (2160u32, 3840u32),
    }
}

/// How many pictures there are in a second.
pub open spec fn pictures_per_second(frame_rate: VideoFrameRateType) -> u8 {
    match frame_rate {
        VideoFrameRateType::VideoFps60 => 60u8,
        VideoFrameRateType::VideoFps30 => 30u8,
    }
}

impl VideoSpec {
    /// The width and the height of the picture in pixels.
    pub fn size(&self) -> (size: (u32, u32))
        ensures
            size == picture_size(self.resolution),
    {
        match self.resolution {
            VideoCodecResolutionType::Video800x480 => (800, 400),
            VideoCodecResolutionType::Video1280x720 => (1280, 720),
            VideoCodecResolutionType::Video1920x1080 => (1920, 1080),
            VideoCodecResolutionType::Video2560x1440 => (2560, 1440),
            VideoCodecResolutionType::Video3840x2160 => (3840, 2160),
            VideoCodecResolutionType::Video720x1280 => (720, 1280),
            VideoCodecResolutionType::Video1080x1920 => (1080, 1920),
            VideoCodecResolutionType::Video1440x2560 => (1440, 2560),
            VideoCodecResolutionType::Video2160x3840 => (2160, 3840),
        }
    }

    /// How many pictures there are in a second.
    pub fn fps(&self) -> (fps: u8)
        ensures
            fps == pictures_per_second(self.frame_rate),
    {
        match self.frame_rate {
            VideoFrameRateType::VideoFps60 => 60,
            VideoFrameRateType::VideoFps30 => 30,
        }
    }
}

/// What is said of the pictures of a stream.
pub open spec fn video_configuration(spec: VideoSpec) -> VideoConfiguration {
    VideoConfiguration {
        codec_resolution: Some(spec.resolution),
        frame_rate: Some(spec.frame_rate),
        width_margin: Some(0),
        height_margin: Some(0),
        density: Some(spec.dpi),
        video_codec_type: Some(MediaCodecType::MediaCodecVideoH264Bp),
    }
}

impl StreamRendererFactory for VideoStreamRendererFactory {
    type Spec = VideoSpec;

    open spec fn descriptor(&self, spec: &VideoSpec) -> MediaSinkServiceView {
        MediaSinkServiceView {
            available_type: Some(MediaCodecType::MediaCodecVideoH264Bp),
            audio_configs: Seq::empty(),
            audio_type: None,
            available_while_in_call: Some(true),
            video_configs: seq![video_configuration(*spec)],
        }
    }

    fn get_descriptor(&self, spec: &VideoSpec) -> (descriptor: MediaSinkService) {
        let config = VideoConfiguration {
            codec_resolution: Some(spec.resolution),
            frame_rate: Some(spec.frame_rate),
            width_margin: Some(0),
            height_margin: Some(0),
            density: Some(spec.dpi),
            video_codec_type: Some(MediaCodecType::MediaCodecVideoH264Bp),
        };
        let video_configs: Vec<VideoConfiguration> = vec![config];
        assert(video_configs@ =~= seq![video_configuration(*spec)]);
        MediaSinkService {
            available_type: Some(MediaCodecType::MediaCodecVideoH264Bp),
            audio_configs: Vec::new(),
            audio_type: None,
            available_while_in_call: Some(true),
            video_configs,
        }
    }
}

/// Whether the events of this name tell of the pointer.
pub open spec fn is_navigation(structure_name: Seq<char>) -> bool {
    structure_name == "application/x-gst-navigation"@
}

/// Whether an event that runs through the pipeline tells of the pointer. Such
/// an event is taken out; all others go on.
pub fn is_navigation_event(structure_name: &str) -> (navigation: bool)
    ensures
        navigation == is_navigation(structure_name@),
{
    structure_name.to_owned() == "application/x-gst-navigation".to_owned()
}

/// What the pointer has done, by the name of the event that tells of it.
pub open spec fn named_action(event_name: Seq<char>) -> Option<PointerAction> {
    if event_name == "mouse-move"@ {
        Some(PointerAction::ActionMoved)
    } else if event_name == "mouse-button-release"@ {
        Some(PointerAction::ActionUp)
    } else if event_name == "mouse-button-press"@ {
        Some(PointerAction::ActionDown)
    } else {
        None
    }
}

/// What the pointer has done, by the name of the event that tells of it.
pub fn pointer_action(event_name: &str) -> (action: Option<PointerAction>)
    ensures
        action == named_action(event_name@),
{
    let event_name: String = event_name.to_owned();
    if event_name == "mouse-move".to_owned() {
        Some(PointerAction::ActionMoved)
    } else if event_name == "mouse-button-release".to_owned() {
        Some(PointerAction::ActionUp)
    } else if event_name == "mouse-button-press".to_owned() {
        Some(PointerAction::ActionDown)
    } else {
        None
    }
}

/// What a navigation event comes to where every one of them is reported.
#[derive(Debug)]
pub struct NavigationReport {
    /// Whether the event tells of something that the pointer has done.
    pub handled: bool,
    /// The packet that tells the phone of it.
    pub packet: Option<ProtoPacket>,
}

/// What a navigation event comes to: a report, if it tells of something that the
/// pointer has done and there is a channel to report it on.
pub open spec fn navigation_reported(
    sender: Option<ChannelPacketSender>,
    event_name: Seq<char>,
    pointer_position: (u32, u32),
    now: u64,
    report: NavigationReport,
) -> bool {
    match named_action(event_name) {
        Some(action) => {
            &&& report.handled
            &&& match sender {
                Some(sender) => {
                    &&& report.packet matches Some(packet)
                    &&& is_touch_report(packet, sender, action, pointer_position, now)
                },
                None => report.packet is None,
            }
        },
        None => !report.handled && report.packet is None,
    }
}

/// Reports what the pointer has done, if there is a channel to report it on.
/// `now` is the number of nanoseconds since the beginning of 1970.
pub fn report_navigation_event(
    sender: Option<ChannelPacketSender>,
    event_name: &str,
    pointer_position: (u32, u32),
    now: u64,
) -> (report: NavigationReport)
    ensures
        navigation_reported(sender, event_name@, pointer_position, now, report),
{
    match pointer_action(event_name) {
        Some(action) => NavigationReport {
            handled: true,
            packet: match sender {
                Some(sender) => Some(build_touch_report(&sender, action, pointer_position, now)),
                None => None,
            },
        },
        None => NavigationReport { handled: false, packet: None },
    }
}

/// The answer to a request for video focus: the phone always has it.
pub fn handle_video_focus_notification_request() -> (notification: VideoFocusNotification)
    ensures
        notification == (VideoFocusNotification {
            focus: Some(VideoFocusMode::VideoFocusProjected),
        }),
{
    VideoFocusNotification { focus: Some(VideoFocusMode::VideoFocusProjected) }
}

/// The phone is told of one kind of pictures, and it is the one of the stream: its
/// resolution, its frame rate and its density, without margins, as H.264. There is
/// no sound.
pub proof fn a_picture_is_described_as_it_is(factory: VideoStreamRendererFactory, spec: VideoSpec)
    ensures
        ({
            let descriptor = factory.descriptor(&spec);
            &&& descriptor.video_configs.len() == 1
            &&& descriptor.video_configs[0].codec_resolution == Some(spec.resolution)
            &&& descriptor.video_configs[0].frame_rate == Some(spec.frame_rate)
            &&& descriptor.video_configs[0].density == Some(spec.dpi)
            &&& descriptor.video_configs[0].width_margin == Some(0u32)
            &&& descriptor.video_configs[0].height_margin == Some(0u32)
            &&& descriptor.video_configs[0].video_codec_type == Some(
                MediaCodecType::MediaCodecVideoH264Bp,
            )
            &&& descriptor.available_type == Some(MediaCodecType::MediaCodecVideoH264Bp)
            &&& descriptor.available_while_in_call == Some(true)
            &&& descriptor.audio_type is None
            &&& descriptor.audio_configs.len() == 0
        }),
{
}

/// Pictures are 16 by 9, or 9 by 16 where they stand upright; the smallest, which
/// is half as high as it is wide, is the one exception. Each is told by its larger
/// side, and one that stands upright is the other one turned round.
pub proof fn pictures_have_their_proportions(resolution: VideoCodecResolutionType)
    ensures
        ({
            let (width, height) = picture_size(resolution);
            let upright = resolution is Video720x1280 || resolution is Video1080x1920 || resolution
                is Video1440x2560 || resolution is Video2160x3840;
            let larger = if upright {
                height
            } else {
                width
            };
            let smaller = if upright {
                width
            } else {
                height
            };
            &&& !(resolution is Video800x480) ==> larger * 9 == smaller * 16
            &&& resolution is Video800x480 ==> larger == 2 * smaller
            &&& resolution is Video800x480 <==> larger == 800
            &&& resolution is Video1280x720 || resolution is Video720x1280 <==> larger == 1280
            &&& resolution is Video1920x1080 || resolution is Video1080x1920 <==> larger == 1920
            &&& resolution is Video2560x1440 || resolution is Video1440x2560 <==> larger == 2560
            &&& resolution is Video3840x2160 || resolution is Video2160x3840 <==> larger == 3840
        }),
{
}

/// There are 60 or 30 pictures in a second, as the frame rate says.
pub proof fn pictures_come_as_often_as_told(frame_rate: VideoFrameRateType)
    ensures
        frame_rate is VideoFps60 <==> pictures_per_second(frame_rate) == 60,
        frame_rate is VideoFps30 <==> pictures_per_second(frame_rate) == 30,
{
}

/// A press is the touch of a finger, a release its lifting, and a motion a move;
/// other events tell of nothing that the pointer does.
pub proof fn pointer_events_are_told_by_their_names(event_name: Seq<char>)
    ensures
        event_name == "mouse-button-press"@ <==> named_action(event_name) == Some(
            PointerAction::ActionDown,
        ),
        event_name == "mouse-button-release"@ <==> named_action(event_name) == Some(
            PointerAction::ActionUp,
        ),
        event_name == "mouse-move"@ <==> named_action(event_name) == Some(
            PointerAction::ActionMoved,
        ),
        named_action(event_name) is Some ==> event_name == "mouse-button-press"@ || event_name
            == "mouse-button-release"@ || event_name == "mouse-move"@,
{
    reveal_strlit("mouse-button-press");
    reveal_strlit("mouse-button-release");
    reveal_strlit("mouse-move");
    assert("mouse-move"@.len() == 10);
    assert("mouse-button-press"@.len() == 18);
    assert("mouse-button-release"@.len() == 20);
}

/// Every press, release and motion is reported where there is a channel, at the
/// place of the pointer; events of other names are not handled. None is left out.
pub proof fn every_pointer_event_is_reported(
    sender: Option<ChannelPacketSender>,
    event_name: Seq<char>,
    pointer_position: (u32, u32),
    now: u64,
    report: NavigationReport,
)
    requires
        navigation_reported(sender, event_name, pointer_position, now, report),
    ensures
        report.handled <==> event_name == "mouse-button-press"@ || event_name
            == "mouse-button-release"@ || event_name == "mouse-move"@,
        report.packet is Some <==> report.handled && sender is Some,
        report.packet matches Some(packet) ==> {
            &&& packet.channel_id == sender->0.channel_id
            &&& packet.message_id == 0x8001
            &&& packet.message is InputReport
            &&& packet.message->InputReport_0.timestamp == now / 1000
            &&& packet.message->InputReport_0.touch_event is Some
            &&& ({
                let touch = packet.message->InputReport_0.touch_event->0;
                &&& touch.pointer_data@.len() == 1
                &&& touch.pointer_data@[0].x == pointer_position.0
                &&& touch.pointer_data@[0].y == pointer_position.1
                &&& touch.action == Some(PointerAction::ActionDown) <==> event_name
                    == "mouse-button-press"@
                &&& touch.action == Some(PointerAction::ActionUp) <==> event_name
                    == "mouse-button-release"@
                &&& touch.action == Some(PointerAction::ActionMoved) <==> event_name
                    == "mouse-move"@
            })
        },
{
    pointer_events_are_told_by_their_names(event_name);
}

/// Of the events that run through the pipeline, those of one name tell of the
/// pointer.
pub proof fn navigation_events_have_one_name(structure_name: Seq<char>)
    ensures
        is_navigation(structure_name) <==> structure_name == "application/x-gst-navigation"@,
{
}

} // verus!
