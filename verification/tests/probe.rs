use clip_track::probe::audio_present;
use clip_track::probe::duration_of;
use clip_track::probe::parse_duration;
use clip_track::probe::split_result;
use clip_track::probe::transcode_result;
use clip_track::probe::ClipLength;
use clip_track::probe::Failure;
use clip_track::probe::Output;
use clip_track::probe::Run;

fn micros(text: &str) -> Option<u64> {
    parse_duration(text.as_bytes()).map(|l| l.micros)
}

fn finished(success: bool, stdout: &str, stderr: &str) -> Run {
    Run::Finished(Output {
        success,
        stdout: stdout.as_bytes().to_vec(),
        stderr: stderr.to_string(),
    })
}

#[test]
fn duration_as_the_probe_prints_it() {
    assert_eq!(micros("30.000000\n"), Some(30_000_000));
    assert_eq!(micros("30.000000\r\n"), Some(30_000_000));
    assert_eq!(micros("10.023000"), Some(10_023_000));
}

#[test]
fn duration_without_a_fraction() {
    assert_eq!(micros("30"), Some(30_000_000));
    assert_eq!(micros("0"), Some(0));
    assert_eq!(micros("30."), Some(30_000_000));
}

#[test]
fn duration_with_a_short_fraction() {
    assert_eq!(micros("10.5"), Some(10_500_000));
    assert_eq!(micros(".5"), Some(500_000));
    assert_eq!(micros("0.000001"), Some(1));
}

#[test]
fn duration_drops_what_lies_behind_the_sixth_place() {
    assert_eq!(micros("30.1234567"), Some(30_123_456));
    assert_eq!(micros("0.0000009"), Some(0));
    assert_eq!(micros("1.9999999999"), Some(1_999_999));
}

#[test]
fn duration_ignores_the_blanks_around_it() {
    assert_eq!(micros("  10.5 \t\n"), Some(10_500_000));
    assert_eq!(micros("\n\n7\n"), Some(7_000_000));
}

#[test]
fn duration_with_leading_zeros() {
    assert_eq!(micros("0030.5"), Some(30_500_000));
}

#[test]
fn what_is_no_decimal_is_no_duration() {
    assert_eq!(micros(""), None);
    assert_eq!(micros("   "), None);
    assert_eq!(micros("."), None);
    assert_eq!(micros("N/A"), None);
    assert_eq!(micros("1.2.3"), None);
    assert_eq!(micros("-1"), None);
    assert_eq!(micros("+1"), None);
    assert_eq!(micros("1e3"), None);
    assert_eq!(micros("10 20"), None);
    assert_eq!(micros("10,5"), None);
    assert_eq!(micros("30.0s"), None);
}

#[test]
fn bytes_that_are_no_text_are_no_duration() {
    assert_eq!(parse_duration(&[0xff, 0xfe]), None);
    assert_eq!(parse_duration(&[b'3', 0xc3, 0xa9]), None);
}

#[test]
fn the_longest_duration_that_fits() {
    assert_eq!(micros("18446744073709.551615"), Some(u64::MAX));
    assert_eq!(micros("18446744073709.551616"), None);
    assert_eq!(micros("18446744073710"), None);
    assert_eq!(micros("99999999999999999999999999999999999999999999"), None);
}

#[test]
fn whole_seconds_and_the_rest() {
    let length = ClipLength { micros: 30_023_000 };
    assert_eq!(length.whole_seconds(), 30);
    assert_eq!(length.subsec_micros(), 23_000);
    assert_eq!(ClipLength::zero().micros, 0);
    assert_eq!(ClipLength::zero().whole_seconds(), 0);
}

#[test]
fn duration_of_a_good_run() {
    assert_eq!(
        duration_of(&finished(true, "30.000000\n", "")),
        Ok(ClipLength { micros: 30_000_000 })
    );
}

#[test]
fn probe_failed_where_the_run_failed() {
    assert_eq!(
        duration_of(&finished(false, "30.000000\n", "no such file")),
        Err(Failure::ProbeFailed)
    );
    assert_eq!(
        duration_of(&Run::NotStarted(String::from("not found"))),
        Err(Failure::ProbeFailed)
    );
}

#[test]
fn probe_failed_where_the_output_is_no_decimal() {
    assert_eq!(duration_of(&finished(true, "N/A\n", "")), Err(Failure::ProbeFailed));
    assert_eq!(duration_of(&finished(true, "", "")), Err(Failure::ProbeFailed));
}

#[test]
fn audio_is_present_where_the_test_succeeded() {
    assert!(audio_present(&finished(true, "", "")));
    assert!(!audio_present(&finished(false, "", "no audio")));
    assert!(!audio_present(&Run::NotStarted(String::from("not found"))));
}

#[test]
fn split_failed_carries_what_the_engine_said() {
    assert_eq!(split_result(&finished(true, "", "frame=1")), Ok(()));
    assert_eq!(
        split_result(&finished(false, "", "Invalid data found")),
        Err(Failure::SplitFailed(String::from("Invalid data found")))
    );
    assert_eq!(
        split_result(&Run::NotStarted(String::from("program not found"))),
        Err(Failure::SplitFailed(String::from("program not found")))
    );
}

#[test]
fn transcode_failed_on_any_failure() {
    assert_eq!(transcode_result(&finished(true, "", "")), Ok(()));
    assert_eq!(
        transcode_result(&finished(false, "", "x")),
        Err(Failure::TranscodeFailed)
    );
    assert_eq!(
        transcode_result(&Run::NotStarted(String::from("x"))),
        Err(Failure::TranscodeFailed)
    );
}
