use clip_track::clock::get_current_timestamp_millis;
use clip_track::clock::millis_from_parts;
use clip_track::clock::Stamps;
use clip_track::paths::area_name;
use clip_track::paths::audio_file_name;
use clip_track::paths::clip_file_name;
use clip_track::paths::extension_of;
use clip_track::paths::file_name_of;
use clip_track::paths::imported_file_name;
use clip_track::paths::join;
use clip_track::paths::sentinel_name;
use clip_track::paths::tail_after;
use clip_track::paths::Area;
use clip_track::paths::Storage;
use clip_track::text::chars_of;
use clip_track::text::decimal;

#[test]
fn millis_from_whole_seconds() {
    assert_eq!(millis_from_parts(0, 0), 0);
    assert_eq!(millis_from_parts(1, 0), 1000);
    assert_eq!(millis_from_parts(1_700_000_000, 0), 1_700_000_000_000);
}

#[test]
fn millis_drop_the_fraction_of_a_millisecond() {
    assert_eq!(millis_from_parts(1, 500_000_000), 1500);
    assert_eq!(millis_from_parts(0, 999_999), 0);
    assert_eq!(millis_from_parts(0, 1_000_000), 1);
    assert_eq!(millis_from_parts(2, 999_999_999), 2999);
}

#[test]
fn millis_of_the_largest_span() {
    assert_eq!(
        millis_from_parts(u64::MAX, 999_999_999),
        u64::MAX as u128 * 1000 + 999
    );
}

#[test]
fn the_clock_stands_after_the_epoch() {
    let now = get_current_timestamp_millis();
    assert!(matches!(now, Some(m) if m > 1_500_000_000_000));
    assert!(matches!(now, Some(m) if m <= u64::MAX as u128 * 1000 + 999));
}

#[test]
fn the_clock_does_not_run_backwards_much() {
    let a = get_current_timestamp_millis().unwrap();
    let b = get_current_timestamp_millis().unwrap();
    assert!(b + 60_000 > a);
}

#[test]
fn decimal_of_small_numbers() {
    assert_eq!(decimal(0), "0");
    assert_eq!(decimal(7), "7");
    assert_eq!(decimal(10), "10");
    assert_eq!(decimal(1009), "1009");
}

#[test]
fn decimal_of_a_timestamp() {
    assert_eq!(decimal(1_700_000_000_123), "1700000000123");
}

#[test]
fn decimal_of_the_largest_number() {
    assert_eq!(decimal(u128::MAX), "340282366920938463463374607431768211455");
}

#[test]
fn decimal_agrees_with_the_standard_notation() {
    let mut n: u128 = 1;
    while n < u128::MAX / 7 {
        assert_eq!(decimal(n), format!("{}", n));
        assert_eq!(decimal(n - 1), format!("{}", n - 1));
        n = n * 7 + 3;
    }
}

#[test]
fn decimal_reads_back() {
    for n in [0u128, 5, 42, 999, 1000, 1_700_000_000_123] {
        assert_eq!(decimal(n).parse::<u128>().unwrap(), n);
    }
}

#[test]
fn different_numbers_have_different_notations() {
    assert_ne!(decimal(1_700_000_000_123), decimal(1_700_000_000_124));
    assert_ne!(decimal(1), decimal(10));
}

#[test]
fn characters_of_a_text() {
    assert_eq!(chars_of("a/b"), vec!['a', '/', 'b']);
    assert_eq!(chars_of(""), Vec::<char>::new());
    assert_eq!(chars_of("é4"), vec!['é', '4']);
}

#[test]
fn area_names() {
    assert_eq!(area_name(Area::Import), "import");
    assert_eq!(area_name(Area::VideoTrack), "videoTrack");
    assert_eq!(area_name(Area::FinalVideo), "final_video");
}

#[test]
fn join_puts_one_separator_between() {
    assert_eq!(join("D:/store", "proj1"), "D:/store/proj1");
    assert_eq!(join("store", "a.mp4"), "store/a.mp4");
}

#[test]
fn join_adds_no_separator_after_one() {
    assert_eq!(join("D:/store/", "proj1"), "D:/store/proj1");
    assert_eq!(join("D:\\store\\", "proj1"), "D:\\store\\proj1");
}

#[test]
fn join_to_nothing_is_the_name() {
    assert_eq!(join("", "proj1"), "proj1");
}

#[test]
fn join_of_nothing_ends_in_a_separator() {
    assert_eq!(join("store", ""), "store/");
    assert_eq!(join("store/", ""), "store/");
    assert_eq!(join("", ""), "");
}

#[test]
fn workspace_and_area_directories() {
    let storage = Storage::new(String::from("D:/store/"));
    assert_eq!(storage.root, "D:/store/");
    assert_eq!(storage.workspace_dir("proj1"), "D:/store/proj1");
    assert_eq!(storage.area_dir("proj1", Area::Import), "D:/store/proj1/import");
    assert_eq!(
        storage.area_dir("proj1", Area::VideoTrack),
        "D:/store/proj1/videoTrack"
    );
    assert_eq!(
        storage.area_dir("proj1", Area::FinalVideo),
        "D:/store/proj1/final_video"
    );
}

#[test]
fn entries_of_an_area() {
    let storage = Storage::new(String::from("/data"));
    assert_eq!(
        storage.entry("proj1", Area::VideoTrack, "1700000000123.mp4"),
        "/data/proj1/videoTrack/1700000000123.mp4"
    );
    assert_eq!(
        storage.entry("proj1", Area::FinalVideo, "ok.txt"),
        "/data/proj1/final_video/ok.txt"
    );
}

#[test]
fn a_malformed_workspace_still_gives_a_path() {
    let storage = Storage::new(String::new());
    assert_eq!(storage.area_dir("", Area::Import), "import");
    assert_eq!(storage.area_dir("a/", Area::Import), "a/import");
}

#[test]
fn tail_after_the_last_occurrence() {
    assert_eq!(tail_after("a.b.c", '.'), "c");
    assert_eq!(tail_after("abc", '.'), "abc");
    assert_eq!(tail_after("abc.", '.'), "");
    assert_eq!(tail_after("", '.'), "");
    assert_eq!(tail_after(".abc", '.'), "abc");
}

#[test]
fn extension_of_a_windows_path() {
    assert_eq!(extension_of("C:\\videos\\clip.mp4"), "mp4");
    assert_eq!(extension_of("C:\\videos\\holiday.2024.MOV"), "MOV");
    assert_eq!(extension_of("clip.mp4"), "mp4");
}

#[test]
fn extension_looks_at_the_file_name_only() {
    assert_eq!(extension_of("C:\\my.videos\\clip"), "clip");
    assert_eq!(extension_of("C:\\videos\\"), "");
}

#[test]
fn extension_of_a_path_written_with_slashes() {
    assert_eq!(extension_of("C:/videos/clip.mp4"), "mp4");
    assert_eq!(extension_of("C:/my.videos/clip"), "clip");
    assert_eq!(extension_of("/home/me/videos/holiday.2024.MOV"), "MOV");
    assert_eq!(extension_of("C:\\videos/clip.mp4"), "mp4");
    assert_eq!(extension_of("C:/videos\\clip.mp4"), "mp4");
    assert_eq!(extension_of("C:/videos/"), "");
}

#[test]
fn file_name_of_a_path() {
    assert_eq!(file_name_of("C:\\videos\\clip.mp4"), "clip.mp4");
    assert_eq!(file_name_of("C:/my.videos/clip"), "clip");
    assert_eq!(file_name_of("clip.mp4"), "clip.mp4");
    assert_eq!(file_name_of("C:/videos/"), "");
    assert_eq!(file_name_of(""), "");
}

#[test]
fn clip_and_audio_file_names() {
    assert_eq!(clip_file_name("1700000000123"), "1700000000123.mp4");
    assert_eq!(audio_file_name("1700000000123"), "1700000000123.mp3");
    assert_eq!(clip_file_name(""), ".mp4");
}

#[test]
fn imported_file_names() {
    assert_eq!(
        imported_file_name(1_700_000_000_123, "mp4"),
        "imported_1700000000123.mp4"
    );
    assert_eq!(imported_file_name(0, "mov"), "imported_0.mov");
}

#[test]
fn the_sentinel_is_named_ok() {
    assert_eq!(sentinel_name(), "ok.txt");
}

#[test]
fn the_first_stamp_is_the_moment() {
    let mut stamps = Stamps::new();
    assert_eq!(stamps.last, None);
    assert_eq!(stamps.issue(1000), Some(1000));
    assert_eq!(stamps.last, Some(1000));
}

#[test]
fn stamps_follow_the_clock_where_it_moves() {
    let mut stamps = Stamps::new();
    assert_eq!(stamps.issue(1000), Some(1000));
    assert_eq!(stamps.issue(1001), Some(1001));
    assert_eq!(stamps.issue(5000), Some(5000));
}

#[test]
fn stamps_differ_where_the_clock_stands_still() {
    let mut stamps = Stamps::new();
    assert_eq!(stamps.issue(1000), Some(1000));
    assert_eq!(stamps.issue(1000), Some(1001));
    assert_eq!(stamps.issue(1000), Some(1002));
    assert_eq!(stamps.issue(999), Some(1003));
}

#[test]
fn a_pair_of_stamps_is_one_millisecond_apart() {
    let mut stamps = Stamps::new();
    assert_eq!(stamps.issue_pair(1000), Some((1000, 1001)));
    assert_eq!(stamps.last, Some(1001));
    assert_eq!(stamps.issue(1001), Some(1002));
    assert_eq!(stamps.issue_pair(1002), Some((1003, 1004)));
    assert_eq!(stamps.issue_pair(2000), Some((2000, 2001)));
}

#[test]
fn no_stamp_is_issued_after_the_last_one() {
    let mut stamps = Stamps { last: Some(u128::MAX) };
    assert_eq!(stamps.issue(5), None);
    assert_eq!(stamps.issue_pair(5), None);
    assert_eq!(stamps.last, Some(u128::MAX));
    let mut stamps = Stamps::new();
    assert_eq!(stamps.issue_pair(u128::MAX), None);
    assert_eq!(stamps.last, None);
    assert_eq!(stamps.issue(u128::MAX), Some(u128::MAX));
    let mut stamps = Stamps { last: Some(u128::MAX - 1) };
    assert_eq!(stamps.issue_pair(0), None);
    assert_eq!(stamps.last, Some(u128::MAX - 1));
}
