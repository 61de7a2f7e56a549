use projectm_lambda::errors::JobError;
use projectm_lambda::request::{
    normalize_request, parse_resolution, Args, DEFAULT_PRESET_DURATION,
};

fn args(url: &str, duration: Option<u32>, resolution: &str) -> Args {
    Args {
        input_url: String::from(url),
        preset_duration: duration,
        resolution: String::from(resolution),
    }
}

#[test]
fn parses_plain_resolution() {
    let r = parse_resolution("1920x1080").unwrap();
    assert_eq!(r.width, 1920);
    assert_eq!(r.height, 1080);
}

#[test]
fn parses_smallest_resolution() {
    let r = parse_resolution("1x1").unwrap();
    assert_eq!(r.width, 1);
    assert_eq!(r.height, 1);
}

#[test]
fn parses_leading_zeros() {
    let r = parse_resolution("01920x0001").unwrap();
    assert_eq!(r.width, 1920);
    assert_eq!(r.height, 1);
}

#[test]
fn parses_largest_resolution() {
    let r = parse_resolution("4294967295x4294967295").unwrap();
    assert_eq!(r.width, u32::MAX);
    assert_eq!(r.height, u32::MAX);
}

#[test]
fn rejects_malformed_resolutions() {
    for bad in [
        "",
        "x",
        "1920",
        "1920x",
        "x1080",
        "19a20x1080",
        "1920X1080",
        "1920x1080x",
        "1920xx1080",
        " 1920x1080",
        "1920x1080 ",
        "-1920x1080",
        "1920x-1080",
    ] {
        assert!(parse_resolution(bad).is_none(), "accepted {:?}", bad);
    }
}

#[test]
fn rejects_oversized_resolution() {
    assert!(parse_resolution("4294967296x10").is_none());
    assert!(parse_resolution("10x99999999999999999999").is_none());
}

#[test]
fn rejects_zero_sides() {
    assert!(parse_resolution("0x1080").is_none());
    assert!(parse_resolution("1920x0").is_none());
    assert!(parse_resolution("0x0").is_none());
}

#[test]
fn normalizes_valid_request() {
    let jr = normalize_request(&args("https://host/a.mp3", None, "1920x1080")).unwrap();
    assert_eq!(jr.input_url, "https://host/a.mp3");
    assert_eq!(jr.preset_duration, DEFAULT_PRESET_DURATION);
    assert_eq!(jr.resolution.width, 1920);
    assert_eq!(jr.resolution.height, 1080);
}

#[test]
fn keeps_explicit_preset_duration() {
    let jr = normalize_request(&args("https://host/a.mp3", Some(25), "640x480")).unwrap();
    assert_eq!(jr.preset_duration, 25);
}

#[test]
fn rejects_empty_input_url() {
    let e = normalize_request(&args("", None, "1920x1080")).unwrap_err();
    assert!(matches!(e, JobError::Validation { .. }));
}

#[test]
fn rejects_bad_resolution_in_request() {
    let e = normalize_request(&args("https://host/a.mp3", None, "fullhd")).unwrap_err();
    assert!(matches!(e, JobError::Validation { .. }));
}
