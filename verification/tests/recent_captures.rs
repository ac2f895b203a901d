use apexshot::recent_captures::{
    collect_recent_captures, discover_recent_captures, empty_state_text, format_capture_meta,
    format_capture_supporting_copy, header_subtitle, recent_captures_status, RecentCaptureCollection, is_animated_media, is_supported_capture_file,
    recent_capture_source_dir, CaptureModeFilter, DirEntryInfo, RecentCaptureEntry,
    DEFAULT_RECENT_CAPTURE_LIMIT,
};

/// Builds a listing entry the way the directory scan reports a file written
/// `order` steps into the test (later files are newer).
fn file(name: &str, order: i128) -> DirEntryInfo {
    DirEntryInfo {
        path: format!("/tmp/captures/{name}").into_bytes(),
        name: name.as_bytes().to_vec(),
        display_name: name.to_string(),
        is_file: true,
        modified_at: Some(1_700_000_000_000_000_000 + order * 5_000_000),
    }
}

fn dir(name: &str, order: i128) -> DirEntryInfo {
    DirEntryInfo { is_file: false, ..file(name, order) }
}

#[test]
fn discover_recent_captures_returns_empty_for_missing_dir() {
    let result = discover_recent_captures(CaptureModeFilter::All, None);
    assert!(result.featured.is_none());
    assert!(result.remaining.is_empty());
}

#[test]
fn discover_recent_captures_sorts_newest_first() {
    let listing = vec![file("newest.png", 1), file("oldest.png", 0)];
    let result = collect_recent_captures(listing, 13, CaptureModeFilter::All);
    assert_eq!(
        result.featured.as_ref().map(|entry| entry.file_name.as_str()),
        Some("newest.png")
    );
    assert_eq!(result.remaining.len(), 1);
    assert_eq!(result.remaining[0].file_name, "oldest.png");
}

#[test]
fn discover_recent_captures_uses_newest_as_featured() {
    let listing = vec![file("two.png", 1), file("one.png", 0), file("three.png", 2)];
    let result = collect_recent_captures(listing, 13, CaptureModeFilter::All);
    assert_eq!(
        result.featured.as_ref().map(|entry| entry.file_name.as_str()),
        Some("three.png")
    );
    assert_eq!(result.remaining.len(), 2);
}

#[test]
fn discover_recent_captures_caps_to_thirteen_items() {
    let listing: Vec<DirEntryInfo> =
        (0..20).map(|index| file(&format!("capture-{index:02}.png"), index)).collect();
    let result = collect_recent_captures(listing, 13, CaptureModeFilter::All);
    assert!(result.featured.is_some());
    assert_eq!(result.remaining.len(), 12);
}

#[test]
fn discover_recent_captures_ignores_non_images() {
    let listing = vec![file("notes.txt", 1), file("capture.png", 0), file("audio.mp3", 2)];
    let result = collect_recent_captures(listing, 13, CaptureModeFilter::All);
    assert_eq!(
        result.featured.as_ref().map(|entry| entry.file_name.as_str()),
        Some("capture.png")
    );
    assert!(result.remaining.is_empty());
}

#[test]
fn discover_recent_captures_ignores_directories() {
    let listing = vec![dir("nested.png", 0), file("capture.png", 1)];
    let result = collect_recent_captures(listing, 13, CaptureModeFilter::All);
    assert_eq!(
        result.featured.as_ref().map(|entry| entry.file_name.as_str()),
        Some("capture.png")
    );
    assert!(result.remaining.is_empty());
}

#[test]
fn discovery_applies_the_default_limit() {
    assert_eq!(DEFAULT_RECENT_CAPTURE_LIMIT, 13);
    let listing: Vec<DirEntryInfo> = (0..15).map(|i| file(&format!("c{i}.jpg"), i)).collect();
    let result = discover_recent_captures(CaptureModeFilter::All, Some(listing));
    assert_eq!(result.featured.unwrap().file_name, "c14.jpg");
    assert_eq!(result.remaining.len(), 12);
    assert_eq!(result.remaining[11].file_name, "c2.jpg");
}

#[test]
fn filters_split_screenshots_from_recordings() {
    let listing = || vec![file("a.png", 0), file("b.MP4", 1), file("c.gif", 2), file("d.webp", 3)];
    let shots = collect_recent_captures(listing(), 13, CaptureModeFilter::Screenshots);
    assert_eq!(shots.featured.unwrap().file_name, "d.webp");
    assert_eq!(shots.remaining.len(), 1);
    assert_eq!(shots.remaining[0].file_name, "a.png");
    let recs = collect_recent_captures(listing(), 13, CaptureModeFilter::Recordings);
    assert_eq!(recs.featured.unwrap().file_name, "c.gif");
    assert_eq!(recs.remaining[0].file_name, "b.MP4");
}

#[test]
fn equal_times_keep_listing_order_and_unknown_times_are_skipped() {
    let mut late = file("late.png", 0);
    late.modified_at = None;
    let listing = vec![file("x.png", 3), file("y.png", 3), late, file("z.png", 3)];
    let result = collect_recent_captures(listing, 13, CaptureModeFilter::All);
    assert_eq!(result.featured.unwrap().file_name, "x.png");
    let names: Vec<&str> = result.remaining.iter().map(|e| e.file_name.as_str()).collect();
    assert_eq!(names, vec!["y.png", "z.png"]);
    let none = collect_recent_captures(vec![file("a.png", 0)], 0, CaptureModeFilter::All);
    assert!(none.featured.is_none());
}

#[test]
fn extensions_follow_path_rules() {
    assert!(is_supported_capture_file(b"shot.PNG"));
    assert!(is_supported_capture_file(b"shot.JpEg"));
    assert!(is_supported_capture_file(b"archive.tar.webm"));
    assert!(!is_supported_capture_file(b".png"));
    assert!(!is_supported_capture_file(b"png"));
    assert!(!is_supported_capture_file(b"shot.png."));
    assert!(!is_supported_capture_file(b"shot.pngx"));
    assert!(!is_supported_capture_file(b".."));
    assert!(is_supported_capture_file(b"..png"));
    assert!(is_animated_media(b"clip.MKV"));
    assert!(is_animated_media(b"loop.gif"));
    assert!(!is_animated_media(b"still.jpg"));
    assert!(!is_animated_media(b"noext"));
}

#[test]
fn source_dir_prefers_the_export_location() {
    assert_eq!(
        recent_capture_source_dir("/home/u/Shots".to_string(), Some("/home/u/Pictures".to_string())),
        Some("/home/u/Shots".to_string())
    );
    assert_eq!(
        recent_capture_source_dir(String::new(), Some("/home/u/Pictures".to_string())),
        Some("/home/u/Pictures".to_string())
    );
    assert_eq!(recent_capture_source_dir(String::new(), None), None);
}

fn entry_named(name: &[u8]) -> RecentCaptureEntry {
    RecentCaptureEntry {
        path: [b"/captures/".as_slice(), name].concat(),
        name: name.to_vec(),
        file_name: String::from_utf8_lossy(name).to_string(),
        modified_at: 0,
    }
}

#[test]
fn capture_meta_names_type_and_kind() {
    assert_eq!(format_capture_meta(&entry_named(b"shot.png")), "PNG screenshot");
    assert_eq!(format_capture_meta(&entry_named(b"clip.Mp4")), "MP4 recording");
    assert_eq!(format_capture_meta(&entry_named(b"anim.gif")), "GIF recording");
    assert_eq!(format_capture_meta(&entry_named(b"notes")), "FILE screenshot");
    assert_eq!(format_capture_meta(&entry_named(b".hidden")), "FILE screenshot");
    assert_eq!(format_capture_meta(&entry_named(b"odd.\xff\xfe")), "FILE screenshot");
    assert_eq!(format_capture_meta(&entry_named("x.tésT".as_bytes())), "TéST screenshot");
}

#[test]
fn supporting_copy_follows_meta() {
    assert_eq!(
        format_capture_supporting_copy(&entry_named(b"a.webm")),
        "WEBM recording. Float it in the overlay, open the saved file directly, or reveal it in the folder."
    );
}

#[test]
fn status_counts_shown_captures() {
    let none = RecentCaptureCollection::empty();
    assert_eq!(recent_captures_status(CaptureModeFilter::All, &none), "No screenshots found yet");
    assert_eq!(recent_captures_status(CaptureModeFilter::Recordings, &none), "No recordings found yet");

    let one = RecentCaptureCollection { featured: Some(entry_named(b"a.png")), remaining: vec![] };
    assert_eq!(recent_captures_status(CaptureModeFilter::Screenshots, &one), "1 recent screenshot");

    let many = RecentCaptureCollection {
        featured: Some(entry_named(b"a.mp4")),
        remaining: (0..11).map(|_| entry_named(b"b.mp4")).collect(),
    };
    assert_eq!(recent_captures_status(CaptureModeFilter::Recordings, &many), "12 recent recordings");
}

#[test]
fn header_and_empty_state_texts() {
    assert_eq!(header_subtitle(Some("/home/u/Pictures"), true, CaptureModeFilter::All), "Browsing /home/u/Pictures");
    assert_eq!(
        header_subtitle(Some("/home/u/Videos"), false, CaptureModeFilter::Recordings),
        "Watching /home/u/Videos for saved recordings"
    );
    assert_eq!(
        header_subtitle(None, true, CaptureModeFilter::Screenshots),
        "Capture save location is unavailable on this system"
    );
    let (title, detail) = empty_state_text(Some("/pics"), CaptureModeFilter::Screenshots);
    assert_eq!(title, "No saved screenshots yet");
    assert_eq!(detail, "Save a screenshot and it will appear here. Current location: /pics");
    let (_, detail) = empty_state_text(None, CaptureModeFilter::All);
    assert_eq!(detail, "ApexShot could not resolve a screenshot location on this system.");
    let (title, _) = empty_state_text(None, CaptureModeFilter::Recordings);
    assert_eq!(title, "Video Recording is Coming Soon!");
}

#[test]
fn left_out_captures_are_older_than_the_last_shown() {
    let listing: Vec<DirEntryInfo> = (0..16).map(|i| file(&format!("c{i}.png"), (i * 7) % 16)).collect();
    let times: Vec<i128> = listing.iter().map(|e| e.modified_at.unwrap()).collect();
    let c = collect_recent_captures(listing, 5, CaptureModeFilter::All);
    let mut shown = vec![c.featured.unwrap()];
    shown.extend(c.remaining);
    assert_eq!(shown.len(), 5);
    let last = shown.last().unwrap().modified_at;
    for t in times {
        if !shown.iter().any(|e| e.modified_at == t) {
            assert!(t <= last);
        }
    }
    let mut paths: Vec<Vec<u8>> = shown.iter().map(|e| e.path.clone()).collect();
    paths.sort();
    paths.dedup();
    assert_eq!(paths.len(), 5);
}
