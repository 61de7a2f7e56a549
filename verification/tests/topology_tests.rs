use projectm_lambda::request::Resolution;
use projectm_lambda::topology::{
    build_topology, mesh_size, Stage, AUDIO_BITRATE, FRAME_RATE, MESH_DIVISOR_COARSE,
    MESH_DIVISOR_FINE, VIDEO_BITRATE,
};

#[test]
fn mesh_size_coarse() {
    let m = mesh_size(&Resolution { width: 1920, height: 1080 }, MESH_DIVISOR_COARSE);
    assert_eq!(m.x, 10);
    assert_eq!(m.y, 6);
}

#[test]
fn mesh_size_fine() {
    let m = mesh_size(&Resolution { width: 1920, height: 1080 }, MESH_DIVISOR_FINE);
    assert_eq!(m.x, 64);
    assert_eq!(m.y, 36);
}

#[test]
fn mesh_size_rounds_up() {
    let m = mesh_size(&Resolution { width: 201, height: 1 }, 200);
    assert_eq!(m.x, 2);
    assert_eq!(m.y, 1);
}

#[test]
fn mesh_size_largest_width() {
    let m = mesh_size(&Resolution { width: u32::MAX, height: u32::MAX }, 1);
    assert_eq!(m.x, u32::MAX);
    assert_eq!(m.y, u32::MAX);
}

#[test]
fn topology_has_expected_stage_order() {
    let d = build_topology(
        "/tmp/in.mp3",
        "/tmp/out.mp4",
        "/presets",
        10,
        &Resolution { width: 1920, height: 1080 },
        MESH_DIVISOR_COARSE,
    );
    let s = &d.stages;
    assert_eq!(s.len(), 18);
    assert!(matches!(&s[0], Stage::Source { location } if location == "/tmp/in.mp3"));
    assert!(matches!(s[1], Stage::Decode));
    assert!(matches!(s[2], Stage::Queue));
    assert!(matches!(s[3], Stage::AudioConvert));
    assert!(matches!(s[4], Stage::AudioResample));
    assert!(matches!(s[5], Stage::Tee));
    assert!(matches!(s[6], Stage::Queue));
    assert!(matches!(s[7], Stage::AudioEncode { bitrate } if bitrate == AUDIO_BITRATE));
    assert!(matches!(s[8], Stage::Queue));
    assert!(matches!(s[9], Stage::Queue));
    assert!(matches!(s[10], Stage::AudioConvert));
    match &s[11] {
        Stage::Visualize { presets_location, preset_duration, mesh, width, height } => {
            assert_eq!(presets_location, "/presets");
            assert_eq!(*preset_duration, 10);
            assert_eq!(mesh.x, 10);
            assert_eq!(mesh.y, 6);
            assert_eq!(*width, 1920);
            assert_eq!(*height, 1080);
        },
        other => panic!("unexpected stage {:?}", std::mem::discriminant(other)),
    }
    assert!(matches!(s[12], Stage::VideoConvert));
    assert!(matches!(
        s[13],
        Stage::VideoCaps { width: 1920, height: 1080, frame_rate } if frame_rate == FRAME_RATE
    ));
    assert!(matches!(s[14], Stage::VideoEncode { bitrate } if bitrate == VIDEO_BITRATE));
    assert!(matches!(s[15], Stage::VideoParse));
    assert!(matches!(s[16], Stage::Multiplex));
    assert!(matches!(&s[17], Stage::Sink { location } if location == "/tmp/out.mp4"));
}
