use vac::clip::{clip_file_name, suffix, ClipType};
use vac::effect::Notice;
use vac::text::{
    decimal_string, eq_ignoring_case, extension, file_name, file_stem, fold_char,
    signed_decimal_string, zero_padded_string,
};

#[test]
fn letters_fold_to_upper_case_and_nothing_else_changes() {
    assert_eq!(fold_char('a'), 'A' as u32);
    assert_eq!(fold_char('z'), 'Z' as u32);
    assert_eq!(fold_char('M'), 'M' as u32);
    assert_eq!(fold_char('4'), '4' as u32);
    assert_eq!(fold_char('{'), '{' as u32);
    assert_eq!(fold_char('`'), '`' as u32);
    assert_eq!(fold_char('é'), 'é' as u32);
}

#[test]
fn texts_are_matched_whatever_their_case() {
    assert!(eq_ignoring_case("mp4", "MP4"));
    assert!(eq_ignoring_case("MpEg", "mPeG"));
    assert!(eq_ignoring_case("", ""));
    assert!(!eq_ignoring_case("mp4", "mp3"));
    assert!(!eq_ignoring_case("mp4", "mp4 "));
    assert!(!eq_ignoring_case("mov", "mo"));
}

#[test]
fn last_component_follows_the_last_separator() {
    assert_eq!(file_name("dir/sub/clip.mp4"), "clip.mp4");
    assert_eq!(file_name("dir\\sub\\clip.mp4"), "clip.mp4");
    assert_eq!(file_name("clip.mp4"), "clip.mp4");
    assert_eq!(file_name("dir/"), "");
    assert_eq!(file_name(""), "");
    assert_eq!(file_name("größe/übung.mov"), "übung.mov");
}

#[test]
fn extension_follows_the_last_dot_that_is_not_first() {
    assert_eq!(extension("clip.mp4"), "mp4");
    assert_eq!(extension("a.b.c"), "c");
    assert_eq!(extension("clip."), "");
    assert_eq!(extension(".hidden"), "");
    assert_eq!(extension("plain"), "");
    assert_eq!(extension(""), "");
    assert_eq!(extension(".a.b"), "b");
}

#[test]
fn stem_is_what_stands_before_the_extension() {
    assert_eq!(file_stem("clip.mp4"), "clip");
    assert_eq!(file_stem("a.b.c"), "a.b");
    assert_eq!(file_stem("clip."), "clip");
    assert_eq!(file_stem(".hidden"), ".hidden");
    assert_eq!(file_stem("plain"), "plain");
    assert_eq!(file_stem(""), "");
}

#[test]
fn numbers_are_written_in_decimal() {
    assert_eq!(decimal_string(0), "0");
    assert_eq!(decimal_string(7), "7");
    assert_eq!(decimal_string(10), "10");
    assert_eq!(decimal_string(1234567890), "1234567890");
    assert_eq!(decimal_string(u64::MAX), "18446744073709551615");
    assert_eq!(signed_decimal_string(0), "0");
    assert_eq!(signed_decimal_string(-1), "-1");
    assert_eq!(signed_decimal_string(42), "42");
    assert_eq!(signed_decimal_string(i64::MIN), "-9223372036854775808");
    assert_eq!(signed_decimal_string(i64::MAX), "9223372036854775807");
}

#[test]
fn numbers_are_filled_up_with_zeros() {
    assert_eq!(zero_padded_string(0, 8), "00000000");
    assert_eq!(zero_padded_string(10_000, 8), "00010000");
    assert_eq!(zero_padded_string(99_999_999, 8), "99999999");
    assert_eq!(zero_padded_string(100_000_000, 8), "100000000");
    assert_eq!(zero_padded_string(5, 0), "5");
    assert_eq!(zero_padded_string(5, 1), "5");
    assert_eq!(zero_padded_string(5, 2), "05");
}

#[test]
fn clip_names_sort_as_their_start_times() {
    assert_eq!(clip_file_name("clip.mp4", 10_000, None), "clip_00010000.mp4");
    assert_eq!(
        clip_file_name("clip.mp4", 10_000, Some(ClipType::Offense)),
        "clip_00010000Off.mp4"
    );
    assert_eq!(
        clip_file_name("game.1.MOV", 0, Some(ClipType::Defense)),
        "game.1_00000000Def.MOV"
    );
    assert_eq!(clip_file_name("noext", 86_400_000, None), "noext_86400000.");
    assert!(clip_file_name("a.mp4", 9_000, None) < clip_file_name("a.mp4", 10_000, None));
    assert_eq!(suffix(None), "");
    assert_eq!(suffix(Some(ClipType::Offense)), "Off");
    assert_eq!(suffix(Some(ClipType::Defense)), "Def");
}

#[test]
fn notices_have_their_texts() {
    assert_eq!(Notice::StartLoop.text(), "start loop");
    assert_eq!(Notice::EndLoop.text(), "end loop");
    assert_eq!(Notice::BreakLoop.text(), "break loop");
    assert_eq!(Notice::NextCutmark.text(), "Next Cutmark");
    assert_eq!(Notice::PreviousCutmark.text(), "Previous Cutmark");
    assert_eq!(Notice::ClipCut(None).text(), "cut clip");
    assert_eq!(Notice::ClipCut(Some(ClipType::Offense)).text(), "cut clip as Offense");
    assert_eq!(Notice::ClipCut(Some(ClipType::Defense)).text(), "cut clip as Defense");
    assert_eq!(Notice::ClipFailed.text(), "error on creating clip");
    assert_eq!(Notice::Concatenating.text(), "concatenating clips");
    assert_eq!(Notice::ConcatFailed.text(), "error concatenating");
    assert_eq!(Notice::after_cut(Some(ClipType::Defense), true), Notice::ClipCut(Some(ClipType::Defense)));
    assert_eq!(Notice::after_cut(Some(ClipType::Defense), false), Notice::ClipFailed);
    assert_eq!(Notice::after_concat(true), Notice::Concatenating);
    assert_eq!(Notice::after_concat(false), Notice::ConcatFailed);
}
