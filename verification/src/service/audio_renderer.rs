//! The sound: what the phone is told of it, and how its samples are played.
use crate::protos::{
    AudioConfiguration, AudioStreamType, MediaCodecType, MediaSinkService, MediaSinkServiceView,
};
use crate::service::media_sink::StreamRendererFactory;
use std::collections::VecDeque;
use vstd::prelude::*;

verus! {

#[derive(Debug, Clone, Copy, PartialEq, Eq, Structural)]
pub enum Channels {
    Mono,
    Stereo,
}

impl Channels {
    pub open spec fn number(self) -> u8 {
        match self {
            Channels::Mono => 1,
            Channels::Stereo => 2,
        }
    }

    pub fn count(self) -> (count: u8)
        ensures
            count == self.number(),
    {
        match self {
            Channels::Mono => 1,
            Channels::Stereo => 2,
        }
    }
}

#[derive(Debug, Clone, Copy, PartialEq, Eq, Structural)]
pub enum SamplingDepth {
    Bits8,
    Bits16,
}

impl SamplingDepth {
    pub open spec fn number_of_bytes(self) -> u8 {
        match self {
            SamplingDepth::Bits8 => 1,
            SamplingDepth::Bits16 => 2,
        }
    }

    pub fn bits(self) -> (bits: u8)
        ensures
            bits == 8 * self.number_of_bytes(),
    {
        match self {
            SamplingDepth::Bits8 => 8,
            SamplingDepth::Bits16 => 16,
        }
    }

    pub fn bytes(self) -> (bytes: u8)
        ensures
            bytes == self.number_of_bytes(),
    {
        match self {
            SamplingDepth::Bits8 => 1,
            SamplingDepth::Bits16 => 2,
        }
    }
}

#[derive(Debug, Clone, Copy, PartialEq, Eq, Structural)]
pub struct AudioStreamSpec {
    pub sampling_rate: u32,
    pub sampling_depth: SamplingDepth,
    pub channels: Channels,
    pub stream_type: AudioStreamType,
}

/// Knows how audio streams are played.
#[derive(Debug)]
pub struct AudioStreamRendererFactory {}

impl AudioStreamRendererFactory {
    pub fn new() -> (factory: Self)
        ensures
            factory == (AudioStreamRendererFactory {  }),
    {
        AudioStreamRendererFactory {  }
    }
}

/// What is said of the samples of a stream.
pub open spec fn audio_configuration(spec: AudioStreamSpec) -> AudioConfiguration {
    AudioConfiguration {
        sampling_rate: spec.sampling_rate,
        number_of_bits: (8 * spec.sampling_depth.number_of_bytes()) as u32,
        number_of_channels: spec.channels.number() as u32,
    }
}

impl StreamRendererFactory for AudioStreamRendererFactory {
    type Spec = AudioStreamSpec;

    open spec fn descriptor(&self, spec: &AudioStreamSpec) -> MediaSinkServiceView {
        MediaSinkServiceView {
            available_type: Some(MediaCodecType::MediaCodecAudioPcm),
            audio_configs: seq![audio_configuration(*spec)],
            audio_type: Some(spec.stream_type),
            available_while_in_call: Some(true),
            video_configs: Seq::empty(),
        }
    }

    fn get_descriptor(&self, spec: &AudioStreamSpec) -> (descriptor: MediaSinkService) {
        let config = AudioConfiguration {
            sampling_rate: spec.sampling_rate,
            number_of_bits: spec.sampling_depth.bits() as u32,
            number_of_channels: spec.channels.count() as u32,
        };
        let audio_configs: Vec<AudioConfiguration> = vec![config];
        assert(audio_configs@ =~= seq![audio_configuration(*spec)]);
        MediaSinkService {
            available_type: Some(MediaCodecType::MediaCodecAudioPcm),
            audio_configs,
            audio_type: Some(spec.stream_type),
            available_while_in_call: Some(true),
            video_configs: Vec::new(),
        }
    }
}

/// Up to how often a sample is played to fill a higher sampling rate.
pub const MAX_REPLICATION: u32 = 4;

/// A way in which the loudspeaker can be played to.
#[derive(Debug, Clone, Copy, PartialEq, Eq, Structural)]
pub struct OutputConfig {
    pub channels: u16,
    /// How many bytes a sample takes.
    pub sample_size: usize,
    pub min_sample_rate: u32,
    pub max_sample_rate: u32,
}

/// The way in which a stream is played.
#[derive(Debug, Clone, Copy, PartialEq, Eq, Structural)]
pub struct ChosenOutput {
    /// Which of the ways is taken.
    pub index: usize,
    pub sample_rate: u32,
    /// How often each sample is played, over all channels.
    pub replicate_sample_count: u32,
}

/// Whether the loudspeaker takes `count` times the sampling rate of a stream.
pub open spec fn fits(spec: AudioStreamSpec, config: OutputConfig, count: int) -> bool {
    config.min_sample_rate <= spec.sampling_rate * count <= config.max_sample_rate
}

/// The least number of times that each sample has to be played for the
/// loudspeaker to take the sampling rate.
pub open spec fn replication(spec: AudioStreamSpec, config: OutputConfig) -> Option<u32> {
    if fits(spec, config, 1) {
        Some(1)
    } else if fits(spec, config, 2) {
        Some(2)
    } else if fits(spec, config, 3) {
        Some(3)
    } else if fits(spec, config, 4) {
        Some(4)
    } else {
        None
    }
}

/// How often each sample is played, over all channels, where a stream can be
/// played in the given way. Stereo sound is not replicated.
pub open spec fn total_replication(spec: AudioStreamSpec, config: OutputConfig) -> Option<u32> {
    match replication(spec, config) {
        None => None,
        Some(count) => if config.sample_size != spec.sampling_depth.number_of_bytes() {
            None
        } else if spec.channels is Mono && config.channels == 1 {
            Some(count)
        } else if spec.channels is Mono && config.channels == 2 {
            Some((2 * count) as u32)
        } else if spec.channels is Stereo && config.channels == 2 && count == 1 {
            Some(1)
        } else {
            None
        },
    }
}

fn compute_replication(spec: &AudioStreamSpec, config: &OutputConfig) -> (count: Option<u32>)
    ensures
        count == replication(*spec, *config),
{
    let mut count: u32 = 1;
    while count <= MAX_REPLICATION
        invariant
            1 <= count <= MAX_REPLICATION + 1,
            forall|i: int| 1 <= i < count ==> !#[trigger] fits(*spec, *config, i),
        decreases MAX_REPLICATION + 1 - count,
    {
        assert(spec.sampling_rate * count <= u32::MAX * MAX_REPLICATION) by (nonlinear_arith)
            requires
                count <= MAX_REPLICATION,
        ;
        let sample_rate: u64 = spec.sampling_rate as u64 * count as u64;
        if config.min_sample_rate as u64 <= sample_rate && sample_rate
            <= config.max_sample_rate as u64 {
            assert(fits(*spec, *config, count as int));
            return Some(count);
        }
        count = count + 1;
    }
    None
}

fn compute_total_replication(spec: &AudioStreamSpec, config: &OutputConfig) -> (count: Option<u32>)
    ensures
        count == total_replication(*spec, *config),
{
    let replicate_sample_count: u32 = match compute_replication(spec, config) {
        Some(count) => count,
        None => {
            return None;
        },
    };
    let total_resample_count: u32 = match (spec.channels, config.channels) {
        (Channels::Mono, 1) => replicate_sample_count,
        (Channels::Mono, 2) => 2 * replicate_sample_count,
        (Channels::Stereo, 2) => if replicate_sample_count == 1 {
            replicate_sample_count
        } else {
            return None;
        },
        _ => {
            return None;
        },
    };
    if config.sample_size == spec.sampling_depth.bytes() as usize {
        Some(total_resample_count)
    } else {
        None
    }
}

/// Whether a choice is the way to play a stream in: of those that serve, the first
/// of those that play each sample the least often.
pub open spec fn is_chosen_output(
    spec: AudioStreamSpec,
    configs: Seq<OutputConfig>,
    chosen: Option<ChosenOutput>,
) -> bool {
    match chosen {
        Some(chosen) => {
            let config = configs[chosen.index as int];
            &&& chosen.index < configs.len()
            &&& total_replication(spec, config) == Some(chosen.replicate_sample_count)
            &&& chosen.sample_rate == spec.sampling_rate * replication(spec, config)->0
            &&& forall|i: int|
                0 <= i < configs.len() ==> {
                    total_replication(spec, #[trigger] configs[i]) matches Some(count) ==> {
                        &&& chosen.replicate_sample_count <= count
                        &&& i < chosen.index ==> chosen.replicate_sample_count < count
                    }
                }
        },
        None => forall|i: int|
            0 <= i < configs.len() ==> total_replication(spec, #[trigger] configs[i]) is None,
    }
}

/// The way to play a stream in: of those that serve, the first of those that
/// play each sample the least often.
pub fn choose_output_config(spec: &AudioStreamSpec, configs: &Vec<OutputConfig>) -> (chosen: Option<
    ChosenOutput,
>)
    ensures
        is_chosen_output(*spec, configs@, chosen),
{
    let mut chosen: Option<ChosenOutput> = None;
    let mut index: usize = 0;
    while index < configs.len()
        invariant
            index <= configs@.len(),
            match chosen {
                Some(chosen) => {
                    let config = configs@[chosen.index as int];
                    &&& chosen.index < index
                    &&& total_replication(*spec, config) == Some(chosen.replicate_sample_count)
                    &&& chosen.sample_rate == spec.sampling_rate * replication(*spec, config)->0
                    &&& forall|i: int|
                        0 <= i < index ==> {
                            total_replication(*spec, #[trigger] configs@[i]) matches Some(count)
                                ==> {
                                &&& chosen.replicate_sample_count <= count
                                &&& i < chosen.index ==> chosen.replicate_sample_count < count
                            }
                        }
                },
                None => forall|i: int|
                    0 <= i < index ==> total_replication(*spec, #[trigger] configs@[i]) is None,
            },
        decreases configs@.len() - index,
    {
        let config: OutputConfig = configs[index];
        if let Some(count) = compute_total_replication(spec, &config) {
            let better: bool = match chosen {
                Some(best) => count < best.replicate_sample_count,
                None => true,
            };
            if better {
                if let Some(rate_factor) = compute_replication(spec, &config) {
                    let sample_rate: u32 = spec.sampling_rate * rate_factor;
                    chosen =
                    Some(ChosenOutput { index, sample_rate, replicate_sample_count: count });
                }
            }
        }
        index = index + 1;
    }
    chosen
}

/// The number of bytes that a sample takes where it is played.
pub const SAMPLE_SIZE: usize = 2;

/// The number that two bytes stand for, in the byte order of the machine.
pub open spec fn sample_of(first: u8, second: u8, big_endian: bool) -> i16 {
    let number = if big_endian {
        first * 256 + second
    } else {
        second * 256 + first
    };
    if number < 0x8000 {
        number as i16
    } else {
        (number - 0x1_0000) as i16
    }
}

/// The samples that bytes stand for.
pub open spec fn samples_of(bytes: Seq<u8>, big_endian: bool) -> Seq<i16> {
    Seq::new(
        bytes.len() / 2,
        |i: int| sample_of(bytes[2 * i], bytes[2 * i + 1], big_endian),
    )
}

fn compute_sample(first: u8, second: u8, big_endian: bool) -> (sample: i16)
    ensures
        sample == sample_of(first, second, big_endian),
{
    let number: i32 = if big_endian {
        first as i32 * 256 + second as i32
    } else {
        second as i32 * 256 + first as i32
    };
    if number < 0x8000 {
        number as i16
    } else {
        (number - 0x1_0000) as i16
    }
}

/// How many samples are taken off a queue of `queued` bytes to fill `space`
/// places, where each is played `replicate` times.
pub open spec fn sample_count(space: nat, queued: nat, replicate: nat) -> nat {
    let places = space / replicate;
    let waiting = queued / (2 * replicate);
    if places <= waiting {
        places
    } else {
        waiting
    }
}

/// What is played when `samples` are spread over the places of `before`.
/// Behind them there is silence. Each sample is played `replicate` times, with
/// one exception: of the places of the first one, only the very first is
/// filled with it; the others keep the samples, or what was there before the
/// samples, that stood there before they were spread.
pub open spec fn spread(samples: Seq<i16>, before: Seq<i16>, replicate: nat) -> Seq<i16> {
    Seq::new(
        before.len(),
        |i: int|
            if i >= samples.len() * replicate {
                0
            } else if i >= replicate {
                samples[i / replicate as int]
            } else if i < samples.len() {
                samples[i]
            } else {
                before[i]
            },
    )
}

/// A queue with more sound at its end.
pub open spec fn with_sound(queued: Seq<u8>, content: Seq<u8>) -> Seq<u8> {
    queued + content
}

/// What is left of a queue, and what is played in the places of `before`, when
/// the loudspeaker asks for sound. The first time, there is silence.
pub open spec fn filled(
    fresh: bool,
    queued: Seq<u8>,
    before: Seq<i16>,
    replicate: nat,
    big_endian: bool,
) -> (Seq<u8>, Seq<i16>) {
    if fresh {
        (queued, Seq::new(before.len(), |i: int| 0i16))
    } else {
        let count = sample_count(before.len(), queued.len(), replicate);
        (
            queued.skip(2int * count),
            spread(samples_of(queued.take(2int * count), big_endian), before, replicate),
        )
    }
}

/// The sound that waits to be played.
pub struct SampleQueue {
    buffer: VecDeque<u8>,
    first: bool,
}

impl SampleQueue {
    /// The bytes that wait to be played.
    pub closed spec fn queued(&self) -> Seq<u8> {
        self.buffer@
    }

    /// Whether nothing has been asked for yet.
    pub closed spec fn is_fresh(&self) -> bool {
        self.first
    }

    pub fn new() -> (queue: Self)
        ensures
            queue.queued() == Seq::<u8>::empty(),
            queue.is_fresh(),
    {
        SampleQueue { buffer: VecDeque::new(), first: true }
    }

    /// Puts sound at the end of the queue.
    pub fn add_content(&mut self, content: &[u8])
        ensures
            final(self).queued() == with_sound(old(self).queued(), content@),
            final(self).is_fresh() == old(self).is_fresh(),
    {
        let mut i: usize = 0;
        assert(content@.take(0) =~= Seq::<u8>::empty());
        while i < content.len()
            invariant
                i <= content@.len(),
                self.queued() == old(self).queued() + content@.take(i as int),
                self.is_fresh() == old(self).is_fresh(),
            decreases content@.len() - i,
        {
            self.buffer.push_back(content[i]);
            assert(content@.take(i + 1) =~= content@.take(i as int).push(content@[i as int]));
            i = i + 1;
        }
        assert(content@.take(i as int) =~= content@);
    }

    /// How many bytes wait to be played.
    pub fn len(&self) -> (len: usize)
        ensures
            len == self.queued().len(),
    {
        self.buffer.len()
    }

    /// Whether a call of [`SampleQueue::fill_output`] is in order: sound can be
    /// replicated only where there is some.
    pub open spec fn can_fill(&self, space: nat, replicate: nat) -> bool {
        &&& replicate > 0
        &&& !self.is_fresh() && replicate > 1 ==> sample_count(
            space,
            self.queued().len(),
            replicate,
        ) > 0
    }

    /// Whether a call of [`SampleQueue::fill_output`] is in order.
    pub fn is_ready(&self, space: usize, replicate_sample_count: usize) -> (ready: bool)
        ensures
            ready == (self.can_fill(space as nat, replicate_sample_count as nat) && 2
                * replicate_sample_count <= usize::MAX),
    {
        if replicate_sample_count == 0 || replicate_sample_count > usize::MAX / 2 {
            return false;
        }
        if self.first || replicate_sample_count == 1 {
            return true;
        }
        space / replicate_sample_count > 0 && self.buffer.len() / (SAMPLE_SIZE
            * replicate_sample_count) > 0
    }

    /// Takes the next samples off the queue.
    fn read_samples(&mut self, data: &mut [i16], count: usize, big_endian: bool)
        requires
            count <= old(data)@.len(),
            2 * count <= old(self).queued().len(),
        ensures
            final(self).queued() == old(self).queued().skip(2 * count),
            final(self).is_fresh() == old(self).is_fresh(),
            final(data)@ == samples_of(old(self).queued().take(2 * count), big_endian) + old(
                data,
            )@.skip(count as int),
    {
        let ghost bytes = self.queued();
        let mut i: usize = 0;
        assert(bytes.skip(0) =~= bytes);
        while i < count
            invariant
                i <= count,
                count <= data@.len(),
                data@.len() == old(data)@.len(),
                2 * count <= bytes.len(),
                self.queued() == bytes.skip(2 * i),
                self.is_fresh() == old(self).is_fresh(),
                forall|j: int|
                    0 <= j < i ==> #[trigger] data@[j] == sample_of(
                        bytes[2 * j],
                        bytes[2 * j + 1],
                        big_endian,
                    ),
                forall|j: int| i <= j < data@.len() ==> #[trigger] data@[j] == old(data)@[j],
            decreases count - i,
        {
            let first: Option<u8> = self.buffer.pop_front();
            let second: Option<u8> = self.buffer.pop_front();
            if let (Some(first), Some(second)) = (first, second) {
                data[i] = compute_sample(first, second, big_endian);
            }
            assert(self.queued() =~= bytes.skip(2 * (i + 1)));
            i = i + 1;
        }
        assert(data@ =~= samples_of(bytes.take(2 * count), big_endian) + old(data)@.skip(
            count as int,
        ));
    }

    /// Fills the places that the loudspeaker plays next, each sample
    /// `replicate_sample_count` times. The first time, there is silence.
    pub fn fill_output(
        &mut self,
        data: &mut [i16],
        replicate_sample_count: usize,
        big_endian: bool,
    )
        requires
            old(self).can_fill(old(data)@.len(), replicate_sample_count as nat),
            2 * replicate_sample_count <= usize::MAX,
        ensures
            !final(self).is_fresh(),
            (final(self).queued(), final(data)@) == filled(
                old(self).is_fresh(),
                old(self).queued(),
                old(data)@,
                replicate_sample_count as nat,
                big_endian,
            ),
    {
        if self.first {
            self.first = false;
            silence(data, 0);
            return;
        }
        let places: usize = data.len() / replicate_sample_count;
        let waiting: usize = self.buffer.len() / (SAMPLE_SIZE * replicate_sample_count);
        let count: usize = if places <= waiting {
            places
        } else {
            waiting
        };
        proof {
            lemma_count_bounds(
                old(data)@.len(),
                old(self).queued().len(),
                replicate_sample_count as nat,
            );
        }
        let ghost samples = samples_of(old(self).queued().take(2 * count), big_endian);
        self.read_samples(data, count, big_endian);
        let total_sample_count: usize = count * replicate_sample_count;
        if replicate_sample_count > 1 {
            replicate_samples(data, count, replicate_sample_count);
        }
        silence(data, total_sample_count);
        proof {
            let r = replicate_sample_count as int;
            assert forall|i: int| r <= i < count * r implies {
                &&& 0 <= #[trigger] (i / r) < count
                &&& r == 1 ==> i / r == i
            } by {
                assert(0 <= i / r < count && (r == 1 ==> i / r == i)) by (nonlinear_arith)
                    requires
                        0 <= i < count * r,
                        r > 0,
                ;
            }
            assert forall|i: int| 0 <= i < data@.len() implies #[trigger] data@[i] == spread(
                samples,
                old(data)@,
                replicate_sample_count as nat,
            )[i] by {
                if r <= i < count * r {
                    assert(0 <= i / r < count);
                }
            }
            assert(data@ =~= spread(samples, old(data)@, replicate_sample_count as nat));
        }
    }
}

/// The samples that are taken fit in the places that they are played in, and
/// there are as many in the queue.
proof fn lemma_count_bounds(space: nat, queued: nat, replicate: nat)
    requires
        replicate > 0,
    ensures
        sample_count(space, queued, replicate) * replicate <= space,
        sample_count(space, queued, replicate) <= space,
        2 * sample_count(space, queued, replicate) <= queued,
{
    let count = sample_count(space, queued, replicate);
    assert(count * replicate <= space) by (nonlinear_arith)
        requires
            count <= space / replicate,
            replicate > 0,
    ;
    assert(count <= count * replicate) by (nonlinear_arith)
        requires
            replicate > 0,
    ;
    assert(2 * count <= queued) by (nonlinear_arith)
        requires
            count <= queued / (2 * replicate),
            replicate > 0,
    ;
}

/// Fills all places from `start` on with silence.
fn silence(data: &mut [i16], start: usize)
    requires
        start <= old(data)@.len(),
    ensures
        final(data)@ == Seq::new(
            old(data)@.len(),
            |i: int|
                if i < start {
                    old(data)@[i]
                } else {
                    0
                },
        ),
{
    let len: usize = data.len();
    let mut i: usize = start;
    while i < len
        invariant
            start <= i <= len,
            len == data@.len(),
            len == old(data)@.len(),
            forall|j: int| start <= j < i ==> #[trigger] data@[j] == 0,
            forall|j: int| 0 <= j < start ==> #[trigger] data@[j] == old(data)@[j],
        decreases len - i,
    {
        data[i] = 0;
        i = i + 1;
    }
}

/// Spreads the first `count` samples so that each but the first is there
/// `replicate` times, from the last one down.
fn replicate_samples(data: &mut [i16], count: usize, replicate: usize)
    requires
        0 < count,
        1 < replicate,
        count * replicate <= old(data)@.len(),
    ensures
        final(data)@ == Seq::new(
            old(data)@.len(),
            |i: int|
                if replicate <= i < count * replicate {
                    old(data)@[i / replicate as int]
                } else {
                    old(data)@[i]
                },
        ),
{
    let ghost before = data@;
    let len: usize = data.len();
    assert(replicate <= count * replicate) by (nonlinear_arith)
        requires
            count > 0,
    ;
    assert(count * replicate <= len);
    let mut write_pos: usize = count * replicate - replicate;
    let mut read_pos: usize = count - 1;
    assert(write_pos == read_pos * replicate) by (nonlinear_arith)
        requires
            write_pos == count * replicate - replicate,
            read_pos == count - 1,
    ;
    while read_pos > 0
        invariant
            before == old(data)@,
            1 < replicate,
            read_pos < count,
            write_pos == read_pos * replicate,
            count * replicate <= before.len(),
            data@.len() == before.len(),
            forall|k: int|
                write_pos + replicate <= k < count * replicate ==> #[trigger] data@[k]
                    == before[k / replicate as int],
            forall|k: int|
                0 <= k < before.len() && !(write_pos + replicate <= k < count * replicate)
                    ==> #[trigger] data@[k] == before[k],
        decreases read_pos,
    {
        assert(write_pos + replicate <= count * replicate) by (nonlinear_arith)
            requires
                write_pos == read_pos * replicate,
                read_pos + 1 <= count,
        ;
        assert(read_pos < write_pos + replicate) by (nonlinear_arith)
            requires
                write_pos == read_pos * replicate,
                replicate > 1,
        ;
        let sample: i16 = data[read_pos];
        let mut i: usize = 0;
        while i < replicate
            invariant
                before == old(data)@,
                i <= replicate,
                sample == before[read_pos as int],
                1 < replicate,
                write_pos == read_pos * replicate,
                write_pos + replicate <= count * replicate,
                count * replicate <= before.len(),
                data@.len() == before.len(),
                forall|k: int|
                    write_pos + replicate <= k < count * replicate ==> #[trigger] data@[k]
                        == before[k / replicate as int],
                forall|k: int| write_pos <= k < write_pos + i ==> #[trigger] data@[k] == sample,
                forall|k: int|
                    0 <= k < before.len() && !(write_pos <= k < write_pos + i) && !(write_pos
                        + replicate <= k < count * replicate) ==> #[trigger] data@[k] == before[k],
            decreases replicate - i,
        {
            data[write_pos + i] = sample;
            i = i + 1;
        }
        proof {
            assert forall|k: int| write_pos <= k < write_pos + replicate implies #[trigger] data@[k]
                == before[k / replicate as int] by {
                assert(k / replicate as int == read_pos) by (nonlinear_arith)
                    requires
                        write_pos <= k < write_pos + replicate,
                        write_pos == read_pos * replicate,
                        replicate > 1,
                ;
            }
            assert(write_pos >= replicate && write_pos - replicate == (read_pos - 1) * replicate)
                by (nonlinear_arith)
                requires
                    write_pos == read_pos * replicate,
                    read_pos > 0,
            ;
        }
        read_pos = read_pos - 1;
        write_pos = write_pos - replicate;
    }
    assert(0 * replicate == 0);
    assert(data@ =~= Seq::new(
        old(data)@.len(),
        |i: int|
            if replicate <= i < count * replicate {
                old(data)@[i / replicate as int]
            } else {
                old(data)@[i]
            },
    ));
}

/// Where nothing is replicated, the samples are played one after the other,
/// and then there is silence.
pub proof fn plain_sound_is_played_as_it_is(samples: Seq<i16>, before: Seq<i16>)
    requires
        samples.len() <= before.len(),
    ensures
        spread(samples, before, 1) == samples + Seq::new(
            (before.len() - samples.len()) as nat,
            |i: int| 0i16,
        ),
{
    assert(forall|i: int| #[trigger] (i / 1int) == i);
    assert(spread(samples, before, 1) =~= samples + Seq::new(
        (before.len() - samples.len()) as nat,
        |i: int| 0i16,
    ));
}

/// Every sample but the first is played as often as it is to be replicated,
/// without a gap.
pub proof fn samples_are_replicated(
    samples: Seq<i16>,
    before: Seq<i16>,
    replicate: nat,
    index: int,
    repetition: int,
)
    requires
        0 < index < samples.len(),
        0 <= repetition < replicate,
        samples.len() * replicate <= before.len(),
    ensures
        spread(samples, before, replicate)[index * replicate + repetition] == samples[index],
{
    let place = index * replicate + repetition;
    assert(replicate <= place < samples.len() * replicate && place / replicate as int == index)
        by (nonlinear_arith)
        requires
            place == index * replicate + repetition,
            0 < index < samples.len(),
            0 <= repetition < replicate,
    ;
}

/// Whatever the number of samples that the loudspeaker asks for at a time, it
/// gets them in the order in which they came, and none is left out.
pub proof fn sound_is_played_in_order(queued: Seq<u8>, first: int, second: int, big_endian: bool)
    requires
        0 <= first,
        0 <= second,
        2 * (first + second) <= queued.len(),
    ensures
        samples_of(queued.take(2 * first), big_endian) + samples_of(
            queued.skip(2 * first).take(2 * second),
            big_endian,
        ) == samples_of(queued.take(2 * (first + second)), big_endian),
{
    assert(samples_of(queued.take(2 * first), big_endian) + samples_of(
        queued.skip(2 * first).take(2 * second),
        big_endian,
    ) =~= samples_of(queued.take(2 * (first + second)), big_endian));
}

/// The phone is told of one kind of samples, and it is the one of the stream: one
/// channel for a mono and two for a stereo stream, eight or sixteen bits by its
/// depth, and its sampling rate. The samples are not compressed, and there is no
/// picture.
pub proof fn a_stream_is_described_as_it_is(
    factory: AudioStreamRendererFactory,
    spec: AudioStreamSpec,
)
    ensures
        ({
            let descriptor = factory.descriptor(&spec);
            &&& descriptor.audio_configs.len() == 1
            &&& descriptor.audio_configs[0].sampling_rate == spec.sampling_rate
            &&& spec.channels is Mono <==> descriptor.audio_configs[0].number_of_channels == 1
            &&& spec.channels is Stereo <==> descriptor.audio_configs[0].number_of_channels == 2
            &&& spec.sampling_depth is Bits8 <==> descriptor.audio_configs[0].number_of_bits == 8
            &&& spec.sampling_depth is Bits16 <==> descriptor.audio_configs[0].number_of_bits == 16
            &&& descriptor.available_type == Some(MediaCodecType::MediaCodecAudioPcm)
            &&& descriptor.audio_type == Some(spec.stream_type)
            &&& descriptor.available_while_in_call == Some(true)
            &&& descriptor.video_configs.len() == 0
        }),
{
}

/// A stream that can be played is played at the least multiple of its sampling
/// rate, up to the fourfold, that the loudspeaker takes. Mono sound goes to one or
/// to two channels and each sample is played once for each of them at each of
/// these times; stereo sound goes to two channels at its own rate. The samples
/// have to be of the size that the loudspeaker takes. Where all that is given, the
/// stream can be played.
pub proof fn a_stream_is_played_where_it_fits(
    spec: AudioStreamSpec,
    config: OutputConfig,
    multiple: int,
)
    requires
        1 <= multiple <= 4,
    ensures
        total_replication(spec, config) matches Some(count) ==> {
            let least: int = if spec.channels is Mono {
                count as int / config.channels as int
            } else {
                1
            };
            &&& spec.channels is Mono ==> config.channels == 1 || config.channels == 2
            &&& spec.channels is Mono ==> count == least * config.channels
            &&& spec.channels is Stereo ==> config.channels == 2 && count == 1
            &&& spec.sampling_depth is Bits8 <==> config.sample_size == 1
            &&& spec.sampling_depth is Bits16 <==> config.sample_size == 2
            &&& 1 <= least <= 4
            &&& config.min_sample_rate <= spec.sampling_rate * least <= config.max_sample_rate
            &&& multiple < least ==> !(config.min_sample_rate <= spec.sampling_rate * multiple
                <= config.max_sample_rate)
        },
        config.min_sample_rate <= spec.sampling_rate * multiple <= config.max_sample_rate && (
        spec.sampling_depth is Bits8 && config.sample_size == 1 || spec.sampling_depth is Bits16
            && config.sample_size == 2) && (spec.channels is Mono && (config.channels == 1
            || config.channels == 2) || spec.channels is Stereo && config.channels == 2 && multiple
            == 1) ==> total_replication(spec, config) is Some,
{
    if let Some(least) = replication(spec, config) {
        assert(fits(spec, config, least as int));
    }
}

/// As soon as there is a way in which the stream can be played, one is chosen. It
/// takes what it is given: the sampling rate lies in the range of the chosen way,
/// is a multiple of that of the stream, and each sample is played that often, and
/// for mono sound once more for each further channel. No other way needs fewer
/// repetitions, and none before it as few.
pub proof fn a_stream_finds_its_output(
    spec: AudioStreamSpec,
    configs: Seq<OutputConfig>,
    chosen: Option<ChosenOutput>,
    index: int,
    multiple: int,
)
    requires
        is_chosen_output(spec, configs, chosen),
        0 <= index < configs.len(),
        1 <= multiple <= 4,
    ensures
        chosen matches Some(chosen) ==> {
            let config = configs[chosen.index as int];
            &&& chosen.index < configs.len()
            &&& config.min_sample_rate <= chosen.sample_rate <= config.max_sample_rate
            &&& spec.channels is Mono ==> chosen.sample_rate * config.channels == spec.sampling_rate
                * chosen.replicate_sample_count
            &&& spec.channels is Stereo ==> chosen.sample_rate == spec.sampling_rate
                && chosen.replicate_sample_count == 1
            &&& spec.channels is Mono ==> config.channels == 1 || config.channels == 2
            &&& spec.channels is Stereo ==> config.channels == 2
            &&& config.sample_size == (if spec.sampling_depth is Bits8 {
                1usize
            } else {
                2usize
            })
        },
        ({
            let config = configs[index];
            config.min_sample_rate <= spec.sampling_rate * multiple <= config.max_sample_rate
                && config.sample_size == (if spec.sampling_depth is Bits8 {
                1usize
            } else {
                2usize
            }) && (spec.channels is Mono && (config.channels == 1 || config.channels == 2)
                || spec.channels is Stereo && config.channels == 2 && multiple == 1) ==> {
                &&& chosen matches Some(chosen)
                &&& chosen.replicate_sample_count <= multiple * (if spec.channels is Mono {
                    config.channels as int
                } else {
                    1
                })
                &&& index < chosen.index ==> chosen.replicate_sample_count < multiple * (
                if spec.channels is Mono {
                    config.channels as int
                } else {
                    1
                })
            }
        }),
{
    a_stream_is_played_where_it_fits(spec, configs[index], multiple);
    if let Some(count) = total_replication(spec, configs[index]) {
        assert(total_replication(spec, configs[index]) is Some);
    }
    if let Some(chosen) = chosen {
        let config = configs[chosen.index as int];
        a_stream_is_played_where_it_fits(spec, config, 1);
        let least = replication(spec, config)->0;
        let rate = spec.sampling_rate as int;
        let channels = config.channels as int;
        if spec.channels is Mono {
            assert(rate * least * channels == rate * (least * channels)) by (nonlinear_arith);
        }
    }
}

/// Two bytes are a number in two's complement, the more significant of them first
/// or last as the machine has it.
pub proof fn a_sample_is_a_signed_number(first: u8, second: u8, big_endian: bool)
    ensures
        ({
            let sample = sample_of(first, second, big_endian);
            let high = if big_endian {
                first
            } else {
                second
            };
            let low = if big_endian {
                second
            } else {
                first
            };
            &&& high < 0x80 ==> sample == 0x100 * high + low
            &&& high >= 0x80 ==> sample == 0x100 * high + low - 0x1_0000
        }),
{
}

/// As many samples are played as there is room for, and as the queue holds so
/// often as each of them is played; not one fewer. They are the oldest ones, and
/// they leave the queue. Each but the first is played as often as it is to be, in
/// one piece; the places of the first are the one exception: they hold, one by
/// one, the first samples, and what was there before where there are no more of
/// them. Behind all that there is silence.
pub proof fn the_oldest_sound_is_played(
    queued: Seq<u8>,
    before: Seq<i16>,
    replicate: nat,
    big_endian: bool,
    place: int,
)
    requires
        replicate > 0,
        0 <= place < before.len(),
    ensures
        ({
            let (left, played) = filled(false, queued, before, replicate, big_endian);
            let count = (queued.len() - left.len()) / 2;
            let index = if place < replicate {
                place
            } else {
                place / replicate as int
            };
            &&& played.len() == before.len()
            &&& left.len() <= queued.len()
            &&& queued.len() - left.len() == 2 * count
            &&& forall|i: int|
                0 <= i < left.len() ==> #[trigger] left[i] == queued[2 * count + i]
            &&& count * replicate <= before.len()
            &&& 2 * replicate * count <= queued.len()
            &&& (count + 1) * replicate > before.len() || 2 * replicate * (count + 1)
                > queued.len()
            &&& place >= count * replicate ==> played[place] == 0
            &&& place < count * replicate && index >= count ==> played[place] == before[place]
            &&& place < count * replicate && index < count ==> {
                let high = if big_endian {
                    queued[2 * index]
                } else {
                    queued[2 * index + 1]
                };
                let low = if big_endian {
                    queued[2 * index + 1]
                } else {
                    queued[2 * index]
                };
                &&& high < 0x80 ==> played[place] == 0x100 * high + low
                &&& high >= 0x80 ==> played[place] == 0x100 * high + low - 0x1_0000
            }
            &&& replicate <= place < count * replicate ==> index < count
        }),
{
    let count = sample_count(before.len(), queued.len(), replicate) as int;
    let r = replicate as int;
    let space = before.len() as int;
    let waiting = queued.len() as int;
    lemma_count_bounds(before.len(), queued.len(), replicate);
    let (left, played) = filled(false, queued, before, replicate, big_endian);
    assert(left.len() == waiting - 2 * count);
    assert(2 * r * count <= waiting && ((count + 1) * r > space || 2 * r * (count + 1) > waiting))
        by (nonlinear_arith)
        requires
            r > 0,
            count == space / r && count <= waiting / (2 * r) || count == waiting / (2 * r) && count
                <= space / r,
    ;
    let index = if place < r {
        place
    } else {
        place / r
    };
    if place < count * r {
        assert(0 <= place / r < count) by (nonlinear_arith)
            requires
                0 <= place < count * r,
                r > 0,
        ;
    }
    if place < count * r && index < count {
        let samples = samples_of(queued.take(2 * count), big_endian);
        assert(samples.len() == count);
        a_sample_is_a_signed_number(queued[2 * index], queued[2 * index + 1], big_endian);
        assert(samples[index] == sample_of(queued[2 * index], queued[2 * index + 1], big_endian));
    }
}

/// Where the loudspeaker asks for the first time, it is given silence, and no
/// sound is lost.
pub proof fn playing_begins_with_silence(
    queued: Seq<u8>,
    before: Seq<i16>,
    replicate: nat,
    big_endian: bool,
    place: int,
)
    requires
        0 <= place < before.len(),
    ensures
        filled(true, queued, before, replicate, big_endian).0 == queued,
        filled(true, queued, before, replicate, big_endian).1.len() == before.len(),
        filled(true, queued, before, replicate, big_endian).1[place] == 0,
{
}

/// The loudspeaker can be given sound the first time that it asks, and whenever
/// nothing is replicated; else wherever there is room for one sample, and as much
/// sound as that takes. A sample is played at least once.
pub proof fn sound_can_be_played(queue: SampleQueue, space: nat, replicate: nat)
    ensures
        queue.can_fill(space, replicate) <==> replicate > 0 && (queue.is_fresh() || replicate == 1
            || space >= replicate && queue.queued().len() >= 2 * replicate),
{
    if replicate > 0 {
        let waiting = queue.queued().len();
        assert((space / replicate > 0 <==> space >= replicate) && (waiting / (2 * replicate) > 0
            <==> waiting >= 2 * replicate)) by (nonlinear_arith)
            requires
                replicate > 0,
        ;
    }
}

/// Sound that comes later is played later: what was in the queue stays in front, and
/// what comes is put behind it as it is.
pub proof fn new_sound_waits_its_turn(queued: Seq<u8>, content: Seq<u8>)
    ensures
        with_sound(queued, content).len() == queued.len() + content.len(),
        with_sound(queued, content).take(queued.len() as int) == queued,
        with_sound(queued, content).skip(queued.len() as int) == content,
{
    assert(with_sound(queued, content).take(queued.len() as int) =~= queued);
    assert(with_sound(queued, content).skip(queued.len() as int) =~= content);
}

} // verus!
