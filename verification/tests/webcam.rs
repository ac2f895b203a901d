use apexshot::webcam::{
    device_key, first_webcam_device, is_capture_device, parse_video_index, usable_webcam_devices,
    webcam_frame, webcam_indices, WebcamProbe,
};

#[test]
fn video_nodes_parse_like_str_parse() {
    assert_eq!(parse_video_index(b"video0"), Some(0));
    assert_eq!(parse_video_index(b"video12"), Some(12));
    assert_eq!(parse_video_index(b"video007"), Some(7));
    assert_eq!(parse_video_index(b"video+3"), Some(3));
    assert_eq!(parse_video_index(b"video-2"), Some(-2));
    assert_eq!(parse_video_index(b"video2147483647"), Some(i32::MAX));
    assert_eq!(parse_video_index(b"video-2147483648"), Some(i32::MIN));
    assert_eq!(parse_video_index(b"video2147483648"), None);
    assert_eq!(parse_video_index(b"video99999999999x"), None);
    assert_eq!(parse_video_index(b"video"), None);
    assert_eq!(parse_video_index(b"video-"), None);
    assert_eq!(parse_video_index(b"video1a"), None);
    assert_eq!(parse_video_index(b"media0"), None);
    assert_eq!(parse_video_index(b"vid"), None);
}

#[test]
fn indices_are_sorted() {
    let names: Vec<Vec<u8>> = ["video3", "null", "video1", "video10", "video1"]
        .iter()
        .map(|s| s.as_bytes().to_vec())
        .collect();
    assert_eq!(webcam_indices(names), vec![1, 1, 3, 10]);
}

#[test]
fn metadata_nodes_and_missing_nodes_are_not_capture_devices() {
    assert!(!is_capture_device(&Some(b"UVC Camera (Metadata)".to_vec()), true));
    assert!(is_capture_device(&Some(b"UVC Camera".to_vec()), true));
    assert!(!is_capture_device(&Some(b"UVC Camera".to_vec()), false));
    assert!(is_capture_device(&None, true));
}

#[test]
fn duplicate_names_keep_the_first_device() {
    let probe = |index: i32, name: Option<&str>, node_exists: bool| WebcamProbe {
        index,
        name: name.map(|n| n.as_bytes().to_vec()),
        node_exists,
    };
    let probes = vec![
        probe(0, Some("Cam"), true),
        probe(1, Some("Cam metadata"), true),
        probe(2, Some("Cam"), true),
        probe(3, None, true),
        probe(4, Some("/dev/video3"), true),
        probe(5, Some("Other"), false),
        probe(6, Some("Other"), true),
    ];
    let devices = usable_webcam_devices(probes);
    assert_eq!(devices, vec![0, 3, 6]);
    assert_eq!(first_webcam_device(&devices), Some(0));
    assert_eq!(first_webcam_device(&Vec::new()), None);
}

#[test]
fn device_keys() {
    assert_eq!(device_key(12, &None), b"/dev/video12".to_vec());
    assert_eq!(device_key(-4, &None), b"/dev/video-4".to_vec());
    assert_eq!(device_key(i32::MIN, &None), b"/dev/video-2147483648".to_vec());
    assert_eq!(device_key(0, &Some(b"Cam".to_vec())), b"Cam".to_vec());
}

#[test]
fn webcam_frames_are_made_opaque() {
    let data = [1u8, 2, 3, 4, 5, 6, 7, 8, 9];
    let f = webcam_frame(2, 1, &data).unwrap();
    assert_eq!(f.bgra, vec![1, 2, 3, 255, 5, 6, 7, 255]);
    assert_eq!((f.width, f.height), (2, 1));
    assert!(webcam_frame(3, 1, &data).is_none());
    assert!(webcam_frame(0, 1, &data).is_none());
    assert!(webcam_frame(-1, -1, &data).is_none());
}
