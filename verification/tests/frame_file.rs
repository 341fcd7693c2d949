use std::collections::HashSet;
use transcode::decimal::decimal_string;
use transcode::frame_file::frame_path;

#[test]
fn decimal_of_small_and_large_numbers() {
    assert_eq!(decimal_string(0), "0");
    assert_eq!(decimal_string(7), "7");
    assert_eq!(decimal_string(10), "10");
    assert_eq!(decimal_string(12345), "12345");
    assert_eq!(decimal_string(usize::MAX), usize::MAX.to_string());
}

#[test]
fn frame_paths_follow_the_pattern() {
    assert_eq!(frame_path("/out", 0), "/out/frame0.hevc");
    assert_eq!(
        frame_path("/home/boris/Desktop/Rust_MG1/asynchronix/Video_Sink", 42),
        "/home/boris/Desktop/Rust_MG1/asynchronix/Video_Sink/frame42.hevc"
    );
    assert_eq!(frame_path("", 100), "/frame100.hevc");
}

#[test]
fn frame_paths_are_distinct() {
    let mut seen = HashSet::new();
    for i in 0..2000usize {
        assert!(seen.insert(frame_path("sink", i)));
    }
    assert_ne!(frame_path("sink", 1), frame_path("sink", 10));
}
