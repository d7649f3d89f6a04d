use vac::markers::LoopMarkers;
use vac::playlist::{is_media_path, text_le, MediaPlaylist};
use vac::timeline::Timeline;

fn timeline(values: &[u64]) -> Timeline {
    Timeline::from_vec(&values.to_vec())
}

#[test]
fn timeline_keeps_its_marks_ascending_and_once() {
    let mut t = Timeline::new();
    assert!(t.is_empty());
    t.insert(30);
    t.insert(10);
    t.insert(20);
    t.insert(10);
    t.insert(0);
    t.insert(u64::MAX);
    assert_eq!(t.to_vec(), vec![0, 10, 20, 30, u64::MAX]);
    assert_eq!(t.len(), 5);
    assert_eq!(timeline(&[5, 3, 5, 1, 3]).to_vec(), vec![1, 3, 5]);
    assert_eq!(timeline(&[]).to_vec(), Vec::<u64>::new());
}

#[test]
fn next_is_the_smallest_mark_not_before() {
    let t = timeline(&[10, 20, 30]);
    assert_eq!(t.next_from(0), Some(10));
    assert_eq!(t.next_from(10), Some(10));
    assert_eq!(t.next_from(11), Some(20));
    assert_eq!(t.next_from(30), Some(30));
    assert_eq!(t.next_from(31), None);
    assert_eq!(timeline(&[]).next_from(0), None);
}

#[test]
fn current_is_the_largest_mark_not_after() {
    let t = timeline(&[10, 20, 30]);
    assert_eq!(t.current_from(9), None);
    assert_eq!(t.current_from(10), Some(10));
    assert_eq!(t.current_from(19), Some(10));
    assert_eq!(t.current_from(20), Some(20));
    assert_eq!(t.current_from(u64::MAX), Some(30));
    assert_eq!(timeline(&[]).current_from(5), None);
}

#[test]
fn previous_is_the_mark_before_the_current_one() {
    let t = timeline(&[10, 20, 30]);
    assert_eq!(t.previous_from(9), None);
    assert_eq!(t.previous_from(10), Some(10));
    assert_eq!(t.previous_from(19), Some(10));
    assert_eq!(t.previous_from(20), Some(10));
    assert_eq!(t.previous_from(29), Some(10));
    assert_eq!(t.previous_from(30), Some(20));
    assert_eq!(t.previous_from(1_000), Some(20));
    assert_eq!(timeline(&[7]).previous_from(8), Some(7));
    assert_eq!(timeline(&[]).previous_from(8), None);
}

#[test]
fn markers_keep_the_end_after_the_start() {
    let mut m = LoopMarkers::unset();
    assert!(!m.can_cut());
    m.start_at(5_000);
    assert_eq!(m, LoopMarkers { loop_start: Some(5_000), loop_end: None });
    assert!(!m.can_cut());
    m.end_at(5_000);
    assert_eq!(m, LoopMarkers { loop_start: None, loop_end: Some(5_000) });
    assert!(!m.can_cut());
    m.start_at(4_999);
    assert_eq!(m, LoopMarkers { loop_start: Some(4_999), loop_end: Some(5_000) });
    assert!(m.can_cut());
    assert!(!m.has_reached_end(4_999));
    assert!(m.has_reached_end(5_000));
    m.start_at(5_000);
    assert_eq!(m, LoopMarkers { loop_start: Some(5_000), loop_end: None });
    assert!(!m.has_reached_end(9_000));
    m.end_at(6_000);
    m.break_loop();
    assert_eq!(m, LoopMarkers { loop_start: Some(5_000), loop_end: None });
    m.end_at(6_000);
    m.reset();
    assert_eq!(m, LoopMarkers::unset());
}

#[test]
fn media_are_known_by_their_extension() {
    assert!(is_media_path("a.mp4"));
    assert!(is_media_path("a.MP4"));
    assert!(is_media_path("dir/a.Mov"));
    assert!(is_media_path("dir\\a.mpeg"));
    assert!(is_media_path("a.b.MPEG"));
    assert!(!is_media_path("a.mpg"));
    assert!(!is_media_path("a.mp4.txt"));
    assert!(!is_media_path("mp4"));
    assert!(!is_media_path(".mp4"));
    assert!(!is_media_path("dir.mp4/readme"));
    assert!(!is_media_path(""));
}

#[test]
fn texts_are_ordered_as_in_a_dictionary() {
    assert!(text_le("", ""));
    assert!(text_le("", "a"));
    assert!(!text_le("a", ""));
    assert!(text_le("a", "a"));
    assert!(text_le("a", "ab"));
    assert!(!text_le("ab", "a"));
    assert!(text_le("ab", "b"));
    assert!(text_le("B", "a"));
    assert!(!text_le("a", "B"));
    assert!(text_le("clip_00009000", "clip_00010000"));
    assert!(text_le("z", "é"));
}

#[test]
fn playlist_is_sorted_and_cyclic() {
    let names: Vec<String> = ["c.mp4", "a.mp4", "x.txt", "b.mp4", "a.mp4"]
        .iter()
        .map(|s| s.to_string())
        .collect();
    let mut playlist = MediaPlaylist::new(&names).unwrap();
    assert_eq!(playlist.len(), 4);
    assert_eq!(playlist.cursor(), 0);
    assert_eq!(playlist.get(0), "a.mp4");
    assert_eq!(playlist.get(1), "a.mp4");
    assert_eq!(playlist.get(2), "b.mp4");
    assert_eq!(playlist.get(3), "c.mp4");
    playlist.recede();
    assert_eq!(playlist.cursor(), 3);
    assert_eq!(playlist.current(), "c.mp4");
    playlist.advance();
    assert_eq!(playlist.cursor(), 0);
    playlist.advance();
    playlist.advance();
    assert_eq!(playlist.current(), "b.mp4");
    assert_eq!(MediaPlaylist::new(&vec!["x.txt".to_string()]), None);
}
