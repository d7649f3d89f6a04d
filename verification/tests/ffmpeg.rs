use vac::analyzer::{
    analyze_autocutmarks, analyze_autocutmarks_cached, autocutmarks_calibrate_far,
    autocutmarks_calibrate_near,
};
use vac::clip::ClipType;
use vac::cutmarks::{parse_frames, BadLine};
use vac::ffmpeg;
use vac::ffmpeg::{
    clip_tag, concat_result, ends_with, failure_message, goes_into, index_of, name_of_reel,
    run_outcome, ConcatTask, Reel,
};
use vac::zooming::{Zoom, ZoomUpdateKind};

fn paths(names: &[&str]) -> Vec<String> {
    names.iter().map(|n| n.to_string()).collect()
}

#[test]
fn clips_of_all_three_kinds_give_three_reels() {
    let tasks = ffmpeg::concat(&paths(&[
        "clips/v_00002000Def.mp4",
        "clips/v_00003000.mp4",
        "clips/v_00001000Off.mp4",
        "clips/v_00000500Def.mp4",
    ]));
    assert_eq!(
        tasks,
        vec![
            ConcatTask {
                reel: Reel::Offense,
                output_name: "condensed_offense.mp4".to_string(),
                sources: paths(&["clips/v_00001000Off.mp4"]),
                index: "file 'clips/v_00001000Off.mp4'\n".to_string(),
            },
            ConcatTask {
                reel: Reel::Defense,
                output_name: "condensed_defense.mp4".to_string(),
                sources: paths(&["clips/v_00000500Def.mp4", "clips/v_00002000Def.mp4"]),
                index: "file 'clips/v_00000500Def.mp4'\nfile 'clips/v_00002000Def.mp4'\n"
                    .to_string(),
            },
            ConcatTask {
                reel: Reel::All,
                output_name: "condensed_all.mp4".to_string(),
                sources: paths(&[
                    "clips/v_00000500Def.mp4",
                    "clips/v_00001000Off.mp4",
                    "clips/v_00002000Def.mp4",
                    "clips/v_00003000.mp4",
                ]),
                index: "file 'clips/v_00000500Def.mp4'\nfile 'clips/v_00001000Off.mp4'\nfile 'clips/v_00002000Def.mp4'\nfile 'clips/v_00003000.mp4'\n"
                    .to_string(),
            },
        ]
    );
}

#[test]
fn offense_clips_alone_give_no_defense_reel() {
    let tasks = ffmpeg::concat(&paths(&["c/b_00002000Off.mp4", "c/a_00001000Off.mp4"]));
    let names: Vec<&str> = tasks.iter().map(|t| t.output_name.as_str()).collect();
    assert_eq!(names, vec!["condensed_offense.mp4", "condensed_all.mp4"]);
    assert_eq!(tasks[0].sources, paths(&["c/a_00001000Off.mp4", "c/b_00002000Off.mp4"]));
    assert_eq!(tasks[1].sources, tasks[0].sources);
}

#[test]
fn untagged_clips_give_only_the_reel_of_all() {
    let tasks = ffmpeg::concat(&paths(&["c/a_00001000.mp4"]));
    assert_eq!(tasks.len(), 1);
    assert_eq!(tasks[0].reel, Reel::All);
    assert_eq!(ffmpeg::concat(&Vec::new()), Vec::<ConcatTask>::new());
}

#[test]
fn tags_are_read_from_the_end_of_the_stem() {
    assert_eq!(clip_tag("c/a_00001000Off.mp4"), Some(ClipType::Offense));
    assert_eq!(clip_tag("c/a_00001000Def.mp4"), Some(ClipType::Defense));
    assert_eq!(clip_tag("c/a_00001000.mp4"), None);
    assert_eq!(clip_tag("c/Off.mp4"), Some(ClipType::Offense));
    assert_eq!(clip_tag("c/Offense.mp4"), None);
    assert_eq!(clip_tag("Off/a.mp4"), None);
    assert_eq!(clip_tag("c/a.Off"), None);
    assert_eq!(clip_tag("c/aoff.mp4"), None);
    assert!(goes_into("c/a_Def.mp4", Reel::Defense));
    assert!(!goes_into("c/a_Def.mp4", Reel::Offense));
    assert!(goes_into("c/a_Def.mp4", Reel::All));
    assert!(ends_with("abc", "bc"));
    assert!(ends_with("abc", ""));
    assert!(ends_with("abc", "abc"));
    assert!(!ends_with("abc", "xabc"));
    assert!(!ends_with("abc", "ab"));
    assert_eq!(name_of_reel(Reel::Defense), "condensed_defense.mp4");
}

#[test]
fn index_names_one_clip_to_a_line() {
    assert_eq!(index_of(&Vec::new()), "");
    assert_eq!(index_of(&paths(&["/a b/c.mp4", "d.mp4"])), "file '/a b/c.mp4'\nfile 'd.mp4'\n");
}

#[test]
fn failure_of_the_transcoder_is_put_in_words() {
    assert_eq!(
        failure_message(Some(1), "no such file"),
        "error from ffmpeg[code:1]: no such file"
    );
    assert_eq!(failure_message(Some(-11), ""), "error from ffmpeg[code:-11]: ");
    assert_eq!(failure_message(None, "killed"), "error from ffmpeg[code:?]: killed");
}

#[test]
fn frame_numbers_are_read_line_by_line() {
    assert_eq!(parse_frames(b""), Ok(vec![]));
    assert_eq!(parse_frames(b"12"), Ok(vec![12]));
    assert_eq!(parse_frames(b"12\n"), Ok(vec![12]));
    assert_eq!(parse_frames(b"30\n7\n30\n0\n"), Ok(vec![30, 7, 30, 0]));
    assert_eq!(parse_frames(b"1\r\n2\r\n"), Ok(vec![1, 2]));
    assert_eq!(parse_frames(b"007\n"), Ok(vec![7]));
    assert_eq!(parse_frames(b"+7\n8"), Ok(vec![7, 8]));
    assert_eq!(
        parse_frames(b"18446744073709551615\n"),
        Ok(vec![u64::MAX])
    );
}

#[test]
fn first_bad_line_of_frame_numbers_is_reported() {
    assert_eq!(parse_frames(b"\n"), Err(BadLine { line: 0 }));
    assert_eq!(parse_frames(b"1\n\n2\n"), Err(BadLine { line: 1 }));
    assert_eq!(parse_frames(b"1\n2\nx\n3\ny\n"), Err(BadLine { line: 2 }));
    assert_eq!(parse_frames(b"1\n 2\n"), Err(BadLine { line: 1 }));
    assert_eq!(parse_frames(b"-1\n"), Err(BadLine { line: 0 }));
    assert_eq!(parse_frames(b"\r\n"), Err(BadLine { line: 0 }));
    assert_eq!(parse_frames(b"1\r\r\n"), Err(BadLine { line: 0 }));
    assert_eq!(parse_frames(b"7\r"), Err(BadLine { line: 0 }));
    assert_eq!(parse_frames(b"1\r\n2\r"), Err(BadLine { line: 1 }));
    assert_eq!(parse_frames(b"18446744073709551616\n"), Err(BadLine { line: 0 }));
    assert_eq!(parse_frames(b"5\n99999999999999999999999\n"), Err(BadLine { line: 1 }));
}

#[test]
fn analyzer_gets_its_arguments() {
    assert_eq!(analyze_autocutmarks(None, None, "v.mp4"), paths(&["v.mp4", "snaps.txt"]));
    assert_eq!(
        analyze_autocutmarks(Some(10), Some(250), "v.mp4"),
        paths(&["-s 10", "-e 250", "v.mp4", "snaps.txt"])
    );
    assert_eq!(
        analyze_autocutmarks(None, Some(-3), "v.mp4"),
        paths(&["-e -3", "v.mp4", "snaps.txt"])
    );
    assert_eq!(
        analyze_autocutmarks_cached(None, "v.mp4"),
        paths(&["--mode=use-cached", "v.mp4", "snaps.txt"])
    );
    assert_eq!(
        analyze_autocutmarks_cached(Some("0.5"), "v.mp4"),
        paths(&["--mode=use-cached", "--sensitivity=0.5", "v.mp4", "snaps.txt"])
    );
    assert_eq!(
        autocutmarks_calibrate_near(40, 1200, "v.mp4"),
        paths(&["--mode=calibrate-near", "--thresholdNear=40", "-s 1200", "v.mp4", "snaps.txt"])
    );
    assert_eq!(
        autocutmarks_calibrate_far(0, 0, "v.mp4"),
        paths(&["--mode=calibrate-far", "--thresholdFar=0", "-s 0", "v.mp4", "snaps.txt"])
    );
}

#[test]
fn zoom_window_stays_inside_the_picture() {
    let mut zoom = Zoom::new((1920, 1080));
    assert_eq!(zoom.geometry(), "1920x1080+0+0");
    assert_eq!(zoom.width_after(2), 1720);
    zoom.update_zoom(ZoomUpdateKind::WindowWidth(2), 967);
    assert_eq!((zoom.zoom_width, zoom.zoom_height), (1720, 967));
    zoom.update_zoom(ZoomUpdateKind::PosX(150), 0);
    assert_eq!(zoom.zoom_posx, 150);
    zoom.update_zoom(ZoomUpdateKind::PosX(150), 0);
    assert_eq!(zoom.zoom_posx, 200);
    zoom.update_zoom(ZoomUpdateKind::PosX(-201), 0);
    assert_eq!(zoom.zoom_posx, 200);
    zoom.update_zoom(ZoomUpdateKind::PosX(-200), 0);
    assert_eq!(zoom.zoom_posx, 0);
    zoom.update_zoom(ZoomUpdateKind::PosY(100), 0);
    assert_eq!(zoom.zoom_posy, 100);
    zoom.update_zoom(ZoomUpdateKind::PosY(100), 0);
    assert_eq!(zoom.zoom_posy, 113);
    assert_eq!(zoom.geometry(), "1720x967+113+0");
    assert_eq!(zoom.width_after(-5), 1920);
    assert_eq!(zoom.width_after(18), 1720);
    assert_eq!(zoom.width_after(17), 20);
    zoom.update_zoom(ZoomUpdateKind::WindowWidth(-1), 1023);
    assert_eq!((zoom.zoom_width, zoom.zoom_height), (1820, 1023));
}

#[test]
fn test_ffmpeg_concat() {
    let tasks = ffmpeg::concat(&paths(&[
        "tests/ressources/testvideo.mp4_clips/testvideo.mp4_00001000Off.mp4",
        "tests/ressources/testvideo.mp4_clips/testvideo.mp4_00002000Def.mp4",
        "tests/ressources/testvideo.mp4_clips/testvideo.mp4_00003000.mp4",
    ]));
    let entries: Vec<&str> = tasks.iter().map(|t| t.output_name.as_str()).collect();
    assert!(entries.iter().any(|e| *e == "condensed_all.mp4"));
    assert!(entries.iter().any(|e| *e == "condensed_defense.mp4"));
    assert!(entries.iter().any(|e| *e == "condensed_offense.mp4"));
}

#[test]
fn outcome_of_a_run_is_success_or_what_is_said_of_it() {
    assert_eq!(run_outcome(true, true, Some(0), "noise"), Ok(()));
    assert_eq!(
        run_outcome(true, false, Some(2), "bad input"),
        Err("error from ffmpeg[code:2]: bad input".to_string())
    );
    assert_eq!(
        run_outcome(true, false, None, ""),
        Err("error from ffmpeg[code:?]: ".to_string())
    );
    assert_eq!(run_outcome(false, true, Some(0), ""), Err("could not execute ffmpeg".to_string()));
    assert_eq!(run_outcome(false, false, None, "x"), Err("could not execute ffmpeg".to_string()));
}

#[test]
fn concatenation_fails_with_what_its_last_failed_run_said() {
    assert_eq!(concat_result(&Vec::new()), Ok(()));
    assert_eq!(concat_result(&vec![Ok(()), Ok(()), Ok(())]), Ok(()));
    assert_eq!(
        concat_result(&vec![Err("first".to_string()), Ok(()), Ok(())]),
        Err("first".to_string())
    );
    assert_eq!(
        concat_result(&vec![Err("first".to_string()), Ok(()), Err("last".to_string())]),
        Err("last".to_string())
    );
    assert_eq!(
        concat_result(&vec![Ok(()), Err("middle".to_string()), Ok(())]),
        Err("middle".to_string())
    );
}
