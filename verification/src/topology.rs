use vstd::prelude::*;
use crate::request::Resolution;

verus! {

/// Coarse mesh granularity: fewer cells, cheaper rendering.
pub const MESH_DIVISOR_COARSE: u32 = 200;

/// Fine mesh granularity: more cells, higher visual quality.
pub const MESH_DIVISOR_FINE: u32 = 30;

/// Fixed output-format policy constants; they are properties of the
/// topology builder, never request inputs.
pub const AUDIO_BITRATE: u32 = 128000;

pub const VIDEO_BITRATE: u32 = 5000;

pub const FRAME_RATE: u32 = 30;

/// Rendering density handed to the visualization stage: the target
/// resolution divided by a granularity divisor, rounded up.
#[derive(Debug, Clone, Copy, PartialEq, Eq, Structural)]
pub struct MeshSize {
    pub x: u32,
    pub y: u32,
}

pub open spec fn ceil_div(a: int, b: int) -> int {
    (a + b - 1) / b
}

/// Ceiling division never exceeds its dividend (for a positive divisor),
/// so a mesh side always fits the machine word of the resolution side.
pub proof fn lemma_ceil_div_bounded(a: int, b: int)
    requires
        a >= 0,
        b >= 1,
    ensures
        0 <= ceil_div(a, b) <= a,
{
    if a == 0 {
        assert((0 + b - 1) / b == 0) by (nonlinear_arith)
            requires
                b >= 1,
        ;
    } else {
        assert(0 <= (a + b - 1) / b <= a) by (nonlinear_arith)
            requires
                a >= 1,
                b >= 1,
        ;
    }
}

/// Compute the mesh granularity from a resolution: each side is the
/// ceiling of the pixel count divided by `divisor`.
pub fn mesh_size(resolution: &Resolution, divisor: u32) -> (m: MeshSize)
    requires
        divisor >= 1,
    ensures
        m.x as int == ceil_div(resolution.width as int, divisor as int),
        m.y as int == ceil_div(resolution.height as int, divisor as int),
{
    proof {
        lemma_ceil_div_bounded(resolution.width as int, divisor as int);
        lemma_ceil_div_bounded(resolution.height as int, divisor as int);
    }
    let x = ((resolution.width as u64 + divisor as u64 - 1) / divisor as u64) as u32;
    let y = ((resolution.height as u64 + divisor as u64 - 1) / divisor as u64) as u32;
    MeshSize { x, y }
}

/// One processing step of the pipeline, in the order the media flows.
#[derive(Debug)]
pub enum Stage {
    /// Reads the local input file.
    Source { location: String },
    /// Decodes the compressed audio.
    Decode,
    AudioConvert,
    AudioResample,
    /// Duplicates the decoded audio into the two downstream paths.
    Tee,
    Queue,
    /// Re-encodes the audio for the container.
    AudioEncode { bitrate: u32 },
    /// The external rendering stage, parameterized by the preset location,
    /// the preset duration, the mesh granularity and the target resolution.
    Visualize {
        presets_location: String,
        preset_duration: u32,
        mesh: MeshSize,
        width: u32,
        height: u32,
    },
    VideoConvert,
    /// Pins the raw video format between rendering and encoding.
    VideoCaps { width: u32, height: u32, frame_rate: u32 },
    VideoEncode { bitrate: u32 },
    VideoParse,
    /// Combines the audio path and the video path into one container.
    Multiplex,
    /// Writes the container to the local output file.
    Sink { location: String },
}

/// An ordered description of one job's pipeline; built once per job and
/// immutable afterwards.
#[derive(Debug)]
pub struct PipelineDescriptor {
    pub stages: Vec<Stage>,
}

/// The stage order every job uses: one source, a decode, audio
/// conditioning, one fan-out, the audio re-encode path, the visualization
/// and video-encode path, one multiplexer, and one sink.
pub open spec fn descriptor_matches(
    stages: Seq<Stage>,
    input_path: Seq<char>,
    output_path: Seq<char>,
    presets_location: Seq<char>,
    preset_duration: u32,
    resolution: Resolution,
    mesh: MeshSize,
) -> bool {
    &&& stages.len() == 18
    &&& stages[0] matches Stage::Source { location } && location@ == input_path
    &&& stages[1] is Decode
    &&& stages[2] is Queue
    &&& stages[3] is AudioConvert
    &&& stages[4] is AudioResample
    &&& stages[5] is Tee
    &&& stages[6] is Queue
    &&& stages[7] matches Stage::AudioEncode { bitrate } && bitrate == AUDIO_BITRATE
    &&& stages[8] is Queue
    &&& stages[9] is Queue
    &&& stages[10] is AudioConvert
    &&& stages[11] matches Stage::Visualize {
        presets_location: p,
        preset_duration: d,
        mesh: m,
        width: w,
        height: h,
    } && p@ == presets_location && d == preset_duration && m == mesh && w == resolution.width
        && h == resolution.height
    &&& stages[12] is VideoConvert
    &&& stages[13] matches Stage::VideoCaps { width, height, frame_rate } && width
        == resolution.width && height == resolution.height && frame_rate == FRAME_RATE
    &&& stages[14] matches Stage::VideoEncode { bitrate } && bitrate == VIDEO_BITRATE
    &&& stages[15] is VideoParse
    &&& stages[16] is Multiplex
    &&& stages[17] matches Stage::Sink { location } && location@ == output_path
}

/// Assemble the pipeline description for one job: the fixed stage order
/// above, with the mesh granularity computed from the resolution by the
/// ceiling-division rule.
pub fn build_topology(
    input_path: &str,
    output_path: &str,
    presets_location: &str,
    preset_duration: u32,
    resolution: &Resolution,
    mesh_divisor: u32,
) -> (d: PipelineDescriptor)
    requires
        mesh_divisor >= 1,
    ensures
        descriptor_matches(
            d.stages@,
            input_path@,
            output_path@,
            presets_location@,
            preset_duration,
            *resolution,
            MeshSize {
                x: ceil_div(resolution.width as int, mesh_divisor as int) as u32,
                y: ceil_div(resolution.height as int, mesh_divisor as int) as u32,
            },
        ),
{
    let mesh = mesh_size(resolution, mesh_divisor);
    let mut stages: Vec<Stage> = Vec::new();
    stages.push(Stage::Source { location: String::from_str(input_path) });
    stages.push(Stage::Decode);
    stages.push(Stage::Queue);
    stages.push(Stage::AudioConvert);
    stages.push(Stage::AudioResample);
    stages.push(Stage::Tee);
    stages.push(Stage::Queue);
    stages.push(Stage::AudioEncode { bitrate: AUDIO_BITRATE });
    stages.push(Stage::Queue);
    stages.push(Stage::Queue);
    stages.push(Stage::AudioConvert);
    stages.push(
        Stage::Visualize {
            presets_location: String::from_str(presets_location),
            preset_duration,
            mesh,
            width: resolution.width,
            height: resolution.height,
        },
    );
    stages.push(Stage::VideoConvert);
    stages.push(
        Stage::VideoCaps {
            width: resolution.width,
            height: resolution.height,
            frame_rate: FRAME_RATE,
        },
    );
    stages.push(Stage::VideoEncode { bitrate: VIDEO_BITRATE });
    stages.push(Stage::VideoParse);
    stages.push(Stage::Multiplex);
    stages.push(Stage::Sink { location: String::from_str(output_path) });
    PipelineDescriptor { stages }
}

} // verus!
