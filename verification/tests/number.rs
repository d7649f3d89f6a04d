use vac::analyzer::{
    plan_analysis, plan_cached_analysis, plan_calibration, read_frame_field, AnalyzerError,
    AnalyzerRun,
};
use vac::number::{parse_magnitude, parse_signed, parse_unsigned, parse_unsigned_in};

fn args(values: &[&str]) -> Vec<String> {
    values.iter().map(|v| v.to_string()).collect()
}

#[test]
fn unsigned_numbers_are_digits_with_an_optional_plus() {
    assert_eq!(parse_unsigned(b"0"), Some(0));
    assert_eq!(parse_unsigned(b"900"), Some(900));
    assert_eq!(parse_unsigned(b"+900"), Some(900));
    assert_eq!(parse_unsigned(b"0042"), Some(42));
    assert_eq!(parse_unsigned(b"18446744073709551615"), Some(u64::MAX));
    assert_eq!(parse_unsigned(b"18446744073709551616"), None);
    assert_eq!(parse_unsigned(b""), None);
    assert_eq!(parse_unsigned(b"+"), None);
    assert_eq!(parse_unsigned(b"-1"), None);
    assert_eq!(parse_unsigned(b"-0"), None);
    assert_eq!(parse_unsigned(b"++1"), None);
    assert_eq!(parse_unsigned(b"1 "), None);
    assert_eq!(parse_unsigned(b"1.5"), None);
    assert_eq!(parse_unsigned(b"12a"), None);
    assert_eq!(parse_unsigned_in(b"ab123cd", 2, 5), Some(123));
    assert_eq!(parse_unsigned_in(b"ab123cd", 2, 2), None);
    assert_eq!(parse_unsigned_in(b"ab123cd", 1, 5), None);
}

#[test]
fn signed_numbers_take_either_sign() {
    assert_eq!(parse_signed(b"0"), Some(0));
    assert_eq!(parse_signed(b"-0"), Some(0));
    assert_eq!(parse_signed(b"+17"), Some(17));
    assert_eq!(parse_signed(b"-17"), Some(-17));
    assert_eq!(parse_signed(b"9223372036854775807"), Some(i64::MAX));
    assert_eq!(parse_signed(b"9223372036854775808"), None);
    assert_eq!(parse_signed(b"-9223372036854775808"), Some(i64::MIN));
    assert_eq!(parse_signed(b"-9223372036854775809"), None);
    assert_eq!(parse_signed(b""), None);
    assert_eq!(parse_signed(b"-"), None);
    assert_eq!(parse_signed(b"+-1"), None);
    assert_eq!(parse_signed(b"1-"), None);
}

#[test]
fn magnitudes_stop_at_their_limit() {
    assert_eq!(parse_magnitude(b"100", 0, 3, 100), Some(100));
    assert_eq!(parse_magnitude(b"101", 0, 3, 100), None);
    assert_eq!(parse_magnitude(b"9", 0, 1, 9), Some(9));
    assert_eq!(parse_magnitude(b"10", 0, 2, 9), None);
    assert_eq!(parse_magnitude(b"0000000000000000000000009", 0, 25, 9), Some(9));
    assert_eq!(parse_magnitude(b"3", 0, 1, 3), Some(3));
    assert_eq!(parse_magnitude(b"5", 0, 1, 3), None);
    assert_eq!(parse_magnitude(b"0", 0, 1, 0), Some(0));
    assert_eq!(parse_magnitude(b"00", 0, 2, 0), Some(0));
    assert_eq!(parse_magnitude(b"1", 0, 1, 0), None);
    assert_eq!(parse_magnitude(b"10", 0, 2, 3), None);
}

#[test]
fn empty_frame_field_names_no_frame() {
    assert_eq!(read_frame_field(""), Ok(None));
    assert_eq!(read_frame_field("120"), Ok(Some(120)));
    assert_eq!(read_frame_field("-5"), Ok(Some(-5)));
    assert_eq!(read_frame_field(" "), Err(AnalyzerError::BadNumber));
    assert_eq!(read_frame_field("12f"), Err(AnalyzerError::BadNumber));
}

#[test]
fn analysis_needs_an_executable_and_numbers() {
    assert_eq!(
        plan_analysis(None, "x", "y", "v.mp4"),
        Err(AnalyzerError::NoExecutable)
    );
    assert_eq!(
        plan_analysis(Some("acm"), "x", "", "v.mp4"),
        Err(AnalyzerError::BadNumber)
    );
    assert_eq!(
        plan_analysis(Some("acm"), "", "1e3", "v.mp4"),
        Err(AnalyzerError::BadNumber)
    );
    assert_eq!(
        plan_analysis(Some("acm"), "", "", "v.mp4"),
        Ok(AnalyzerRun {
            exe: "acm".to_string(),
            args: args(&["v.mp4", "snaps.txt"]),
            background: true
        })
    );
    assert_eq!(
        plan_analysis(Some("/opt/acm"), "10", "2000", "dir/v.mp4"),
        Ok(AnalyzerRun {
            exe: "/opt/acm".to_string(),
            args: args(&["-s 10", "-e 2000", "dir/v.mp4", "snaps.txt"]),
            background: true
        })
    );
}

#[test]
fn cached_analysis_needs_an_executable() {
    assert_eq!(
        plan_cached_analysis(None, Some("0.6"), "v.mp4"),
        Err(AnalyzerError::NoExecutable)
    );
    assert_eq!(
        plan_cached_analysis(Some("acm"), Some("0.6"), "v.mp4"),
        Ok(AnalyzerRun {
            exe: "acm".to_string(),
            args: args(&["--mode=use-cached", "--sensitivity=0.6", "v.mp4", "snaps.txt"]),
            background: true
        })
    );
}

#[test]
fn calibration_is_waited_for() {
    assert_eq!(
        plan_calibration(None, true, "900", 7, "v.mp4"),
        Err(AnalyzerError::NoExecutable)
    );
    assert_eq!(
        plan_calibration(Some("acm"), true, "", 7, "v.mp4"),
        Err(AnalyzerError::BadNumber)
    );
    assert_eq!(
        plan_calibration(Some("acm"), true, "900", 7, "v.mp4"),
        Ok(AnalyzerRun {
            exe: "acm".to_string(),
            args: args(&["--mode=calibrate-near", "--thresholdNear=900", "-s 7", "v.mp4", "snaps.txt"]),
            background: false
        })
    );
    assert_eq!(
        plan_calibration(Some("acm"), false, "500", -1, "v.mp4"),
        Ok(AnalyzerRun {
            exe: "acm".to_string(),
            args: args(&["--mode=calibrate-far", "--thresholdFar=500", "-s -1", "v.mp4", "snaps.txt"]),
            background: false
        })
    );
}
