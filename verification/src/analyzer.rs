//! The analyzer, an outside program that proposes cutmarks: how it is started.

use vstd::prelude::*;
use vstd::string::*;
use crate::number::{parse_signed, parse_unsigned, signed_of, unsigned_of};
use crate::text::{decimal, decimal_string, signed_decimal, signed_decimal_string};

verus! {

/// The name of the file into which the analyzer writes the frame numbers it found.
pub open spec fn result_file() -> Seq<char> {
    "snaps.txt"@
}

/// The argument that tells the analyzer the frame to start at.
pub open spec fn start_argument(frame: i64) -> Seq<char> {
    "-s "@ + signed_decimal(frame as int)
}

/// The argument that tells the analyzer the frame to end at.
pub open spec fn end_argument(frame: i64) -> Seq<char> {
    "-e "@ + signed_decimal(frame as int)
}

/// One argument where there is a value, and none else.
pub open spec fn optional(argument: Option<Seq<char>>) -> Seq<Seq<char>> {
    match argument {
        Some(a) => seq![a],
        None => Seq::<Seq<char>>::empty(),
    }
}

/// The arguments of an analysis of `videofile`, over the frames from `start_frame` to
/// `end_frame` where they are given.
pub open spec fn analyze_arguments(
    start_frame: Option<i64>,
    end_frame: Option<i64>,
    videofile: Seq<char>,
) -> Seq<Seq<char>> {
    optional(
        match start_frame {
            Some(f) => Some(start_argument(f)),
            None => None,
        },
    ) + optional(
        match end_frame {
            Some(f) => Some(end_argument(f)),
            None => None,
        },
    ) + seq![videofile, result_file()]
}

/// The arguments of an analysis of `videofile` from what an earlier one has kept, with
/// the sensitivity where it is given.
pub open spec fn cached_arguments(sensitivity: Option<Seq<char>>, videofile: Seq<char>) -> Seq<
    Seq<char>,
> {
    seq!["--mode=use-cached"@] + optional(
        match sensitivity {
            Some(s) => Some("--sensitivity="@ + s),
            None => None,
        },
    ) + seq![videofile, result_file()]
}

/// The arguments of a calibration of the near threshold on `videofile` at
/// `start_frame`.
pub open spec fn calibrate_near_arguments(
    threshold: u64,
    start_frame: i64,
    videofile: Seq<char>,
) -> Seq<Seq<char>> {
    seq![
        "--mode=calibrate-near"@,
        "--thresholdNear="@ + decimal(threshold as nat),
        start_argument(start_frame),
        videofile,
        result_file(),
    ]
}

/// The arguments of a calibration of the far threshold on `videofile` at
/// `start_frame`.
pub open spec fn calibrate_far_arguments(
    threshold: u64,
    start_frame: i64,
    videofile: Seq<char>,
) -> Seq<Seq<char>> {
    seq![
        "--mode=calibrate-far"@,
        "--thresholdFar="@ + decimal(threshold as nat),
        start_argument(start_frame),
        videofile,
        result_file(),
    ]
}

/// `head` with the digits of `n` behind it.
fn with_number(head: &str, n: i64) -> (r: String)
    ensures
        r@ == head@ + signed_decimal(n as int),
{
    let mut r = String::from_str(head);
    let digits = signed_decimal_string(n);
    r.append(digits.as_str());
    r
}

/// `head` with `tail` behind it.
fn joined(head: &str, tail: &str) -> (r: String)
    ensures
        r@ == head@ + tail@,
{
    let mut r = String::from_str(head);
    r.append(tail);
    r
}

/// The arguments with which the analyzer is started on `videofile`, over the frames
/// from `start_frame` to `end_frame` where they are given.
pub fn analyze_autocutmarks(
    start_frame: Option<i64>,
    end_frame: Option<i64>,
    videofile: &str,
) -> (r: Vec<String>)
    ensures
        r.deep_view() == analyze_arguments(start_frame, end_frame, videofile@),
{
    let mut r: Vec<String> = Vec::new();
    match start_frame {
        Some(f) => r.push(with_number("-s ", f)),
        None => {},
    }
    match end_frame {
        Some(f) => r.push(with_number("-e ", f)),
        None => {},
    }
    r.push(String::from_str(videofile));
    r.push(String::from_str("snaps.txt"));
    assert(r.deep_view() =~= analyze_arguments(start_frame, end_frame, videofile@));
    r
}

/// The arguments with which the analyzer is started on `videofile` to work from what
/// an earlier analysis has kept, with the sensitivity as the operator wrote it, where
/// there is one.
pub fn analyze_autocutmarks_cached(sensitivity: Option<&str>, videofile: &str) -> (r: Vec<String>)
    ensures
        r.deep_view() == cached_arguments(
            match sensitivity {
                Some(s) => Some(s@),
                None => None,
            },
            videofile@,
        ),
{
    let mut r: Vec<String> = Vec::new();
    r.push(String::from_str("--mode=use-cached"));
    match sensitivity {
        Some(s) => r.push(joined("--sensitivity=", s)),
        None => {},
    }
    r.push(String::from_str(videofile));
    r.push(String::from_str("snaps.txt"));
    assert(r.deep_view() =~= cached_arguments(
        match sensitivity {
            Some(s) => Some(s@),
            None => None,
        },
        videofile@,
    ));
    r
}

/// The arguments with which the analyzer is started to calibrate its near threshold
/// on `videofile` at `start_frame`.
pub fn autocutmarks_calibrate_near(threshold: u64, start_frame: i64, videofile: &str) -> (r: Vec<
    String,
>)
    ensures
        r.deep_view() == calibrate_near_arguments(threshold, start_frame, videofile@),
{
    let mut r: Vec<String> = Vec::new();
    r.push(String::from_str("--mode=calibrate-near"));
    let digits = decimal_string(threshold);
    r.push(joined("--thresholdNear=", digits.as_str()));
    r.push(with_number("-s ", start_frame));
    r.push(String::from_str(videofile));
    r.push(String::from_str("snaps.txt"));
    assert(r.deep_view() =~= calibrate_near_arguments(threshold, start_frame, videofile@));
    r
}

/// The arguments with which the analyzer is started to calibrate its far threshold on
/// `videofile` at `start_frame`.
pub fn autocutmarks_calibrate_far(threshold: u64, start_frame: i64, videofile: &str) -> (r: Vec<
    String,
>)
    ensures
        r.deep_view() == calibrate_far_arguments(threshold, start_frame, videofile@),
{
    let mut r: Vec<String> = Vec::new();
    r.push(String::from_str("--mode=calibrate-far"));
    let digits = decimal_string(threshold);
    r.push(joined("--thresholdFar=", digits.as_str()));
    r.push(with_number("-s ", start_frame));
    r.push(String::from_str(videofile));
    r.push(String::from_str("snaps.txt"));
    assert(r.deep_view() =~= calibrate_far_arguments(threshold, start_frame, videofile@));
    r
}

/// Why the analyzer cannot be started.
#[derive(Debug, Copy, Clone, PartialEq, Eq)]
pub enum AnalyzerError {
    /// No executable of the analyzer has been chosen.
    NoExecutable,
    /// A field of the window holds no number where one is needed.
    BadNumber,
}

/// One start of the analyzer.
#[derive(Debug, Clone, PartialEq, Eq)]
pub struct AnalyzerRun {
    /// The executable of the analyzer.
    pub exe: String,
    /// Its arguments.
    pub args: Vec<String>,
    /// Whether it runs beside the session and hands in cutmarks when it is done; else
    /// the session waits for it and only its success counts.
    pub background: bool,
}

/// What an `AnalyzerRun` holds.
pub struct AnalyzerRunView {
    pub exe: Seq<char>,
    pub args: Seq<Seq<char>>,
    pub background: bool,
}

impl View for AnalyzerRun {
    type V = AnalyzerRunView;

    open spec fn view(&self) -> AnalyzerRunView {
        AnalyzerRunView {
            exe: self.exe@,
            args: self.args.deep_view(),
            background: self.background,
        }
    }
}

/// The frame that a field of the window names, its text given in bytes: none where the
/// field is empty, else the number that it writes.
pub open spec fn frame_field(field: Seq<u8>) -> Result<Option<i64>, AnalyzerError> {
    if field.len() == 0 {
        Ok(None)
    } else {
        match signed_of(field) {
            Some(frame) => Ok(Some(frame)),
            None => Err(AnalyzerError::BadNumber),
        }
    }
}

/// The start of an analysis of `videofile` over the frames that the two fields name,
/// or why there is none: no executable first, then a start field that is no number,
/// then such an end field.
pub open spec fn analysis_plan(
    exe: Option<Seq<char>>,
    start_field: Seq<u8>,
    end_field: Seq<u8>,
    videofile: Seq<char>,
) -> Result<AnalyzerRunView, AnalyzerError> {
    match exe {
        None => Err(AnalyzerError::NoExecutable),
        Some(exe) => match frame_field(start_field) {
            Err(e) => Err(e),
            Ok(start_frame) => match frame_field(end_field) {
                Err(e) => Err(e),
                Ok(end_frame) => Ok(
                    AnalyzerRunView {
                        exe,
                        args: analyze_arguments(start_frame, end_frame, videofile),
                        background: true,
                    },
                ),
            },
        },
    }
}

/// The start of an analysis of `videofile` from what an earlier one has kept, or why
/// there is none.
pub open spec fn cached_analysis_plan(
    exe: Option<Seq<char>>,
    sensitivity: Option<Seq<char>>,
    videofile: Seq<char>,
) -> Result<AnalyzerRunView, AnalyzerError> {
    match exe {
        None => Err(AnalyzerError::NoExecutable),
        Some(exe) => Ok(
            AnalyzerRunView {
                exe,
                args: cached_arguments(sensitivity, videofile),
                background: true,
            },
        ),
    }
}

/// The start of a calibration on `videofile` at `current_frame`, of the near threshold
/// or of the far one, with the threshold that the field names, or why there is none:
/// no executable first, then a field that is no number.
pub open spec fn calibration_plan(
    exe: Option<Seq<char>>,
    near: bool,
    threshold_field: Seq<u8>,
    current_frame: i64,
    videofile: Seq<char>,
) -> Result<AnalyzerRunView, AnalyzerError> {
    match exe {
        None => Err(AnalyzerError::NoExecutable),
        Some(exe) => match unsigned_of(threshold_field) {
            None => Err(AnalyzerError::BadNumber),
            Some(threshold) => Ok(
                AnalyzerRunView {
                    exe,
                    args: if near {
                        calibrate_near_arguments(threshold, current_frame, videofile)
                    } else {
                        calibrate_far_arguments(threshold, current_frame, videofile)
                    },
                    background: false,
                },
            ),
        },
    }
}

/// The frame that a field of the window names.
pub fn read_frame_field(field: &str) -> (r: Result<Option<i64>, AnalyzerError>)
    ensures
        r == frame_field(field.spec_bytes()),
{
    let bytes = field.as_bytes();
    if bytes.len() == 0 {
        Ok(None)
    } else {
        match parse_signed(bytes) {
            Some(frame) => Ok(Some(frame)),
            None => Err(AnalyzerError::BadNumber),
        }
    }
}

/// Plans the start of an analysis of `videofile` over the frames that the two fields
/// of the window name, with the executable that was chosen, if one was.
pub fn plan_analysis(exe: Option<&str>, start_field: &str, end_field: &str, videofile: &str) -> (r:
    Result<AnalyzerRun, AnalyzerError>)
    ensures
        match r {
            Ok(run) => exe is Some && analysis_plan(
                Some(exe.unwrap()@),
                start_field.spec_bytes(),
                end_field.spec_bytes(),
                videofile@,
            ) == Ok::<AnalyzerRunView, AnalyzerError>(run@),
            Err(e) => analysis_plan(
                match exe {
                    Some(path) => Some(path@),
                    None => None,
                },
                start_field.spec_bytes(),
                end_field.spec_bytes(),
                videofile@,
            ) == Err::<AnalyzerRunView, AnalyzerError>(e),
        },
{
    let path = match exe {
        Some(path) => path,
        None => {
            return Err(AnalyzerError::NoExecutable);
        },
    };
    let start_frame = match read_frame_field(start_field) {
        Ok(frame) => frame,
        Err(e) => {
            return Err(e);
        },
    };
    let end_frame = match read_frame_field(end_field) {
        Ok(frame) => frame,
        Err(e) => {
            return Err(e);
        },
    };
    Ok(
        AnalyzerRun {
            exe: String::from_str(path),
            args: analyze_autocutmarks(start_frame, end_frame, videofile),
            background: true,
        },
    )
}

/// Plans the start of an analysis of `videofile` from what an earlier one has kept,
/// with the executable that was chosen, if one was, and the sensitivity as the
/// operator wrote it, where there is one.
pub fn plan_cached_analysis(exe: Option<&str>, sensitivity: Option<&str>, videofile: &str) -> (r:
    Result<AnalyzerRun, AnalyzerError>)
    ensures
        match r {
            Ok(run) => exe is Some && cached_analysis_plan(
                Some(exe.unwrap()@),
                match sensitivity {
                    Some(s) => Some(s@),
                    None => None,
                },
                videofile@,
            ) == Ok::<AnalyzerRunView, AnalyzerError>(run@),
            Err(e) => exe is None && e == AnalyzerError::NoExecutable,
        },
{
    match exe {
        Some(path) => Ok(
            AnalyzerRun {
                exe: String::from_str(path),
                args: analyze_autocutmarks_cached(sensitivity, videofile),
                background: true,
            },
        ),
        None => Err(AnalyzerError::NoExecutable),
    }
}

/// Plans the start of a calibration on `videofile` at `current_frame`, of the near
/// threshold or of the far one, with the executable that was chosen, if one was, and
/// the threshold that the field of the window names.
pub fn plan_calibration(
    exe: Option<&str>,
    near: bool,
    threshold_field: &str,
    current_frame: i64,
    videofile: &str,
) -> (r: Result<AnalyzerRun, AnalyzerError>)
    ensures
        match r {
            Ok(run) => exe is Some && calibration_plan(
                Some(exe.unwrap()@),
                near,
                threshold_field.spec_bytes(),
                current_frame,
                videofile@,
            ) == Ok::<AnalyzerRunView, AnalyzerError>(run@),
            Err(e) => calibration_plan(
                match exe {
                    Some(path) => Some(path@),
                    None => None,
                },
                near,
                threshold_field.spec_bytes(),
                current_frame,
                videofile@,
            ) == Err::<AnalyzerRunView, AnalyzerError>(e),
        },
{
    let path = match exe {
        Some(path) => path,
        None => {
            return Err(AnalyzerError::NoExecutable);
        },
    };
    let threshold = match parse_unsigned(threshold_field.as_bytes()) {
        Some(threshold) => threshold,
        None => {
            return Err(AnalyzerError::BadNumber);
        },
    };
    let args = if near {
        autocutmarks_calibrate_near(threshold, current_frame, videofile)
    } else {
        autocutmarks_calibrate_far(threshold, current_frame, videofile)
    };
    Ok(AnalyzerRun { exe: String::from_str(path), args, background: false })
}

} // verus!
