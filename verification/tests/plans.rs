use clip_track::engine::audio_test_command;
use clip_track::engine::duration_command;
use clip_track::engine::split_command;
use clip_track::engine::thumbnails_command;
use clip_track::paths::Storage;
use clip_track::probe::ClipLength;
use clip_track::probe::Failure;
use clip_track::probe::Output;
use clip_track::probe::Run;
use clip_track::steps::Step;
use clip_track::steps::Task;
use clip_track::synthesis::after_merge;
use clip_track::synthesis::marker_path;
use clip_track::synthesis::query_final_path;
use clip_track::synthesis::synthesis_answer;
use clip_track::synthesis::synthesize;
use clip_track::track::add_clip;
use clip_track::track::added_clip;
use clip_track::track::extract_audio;
use clip_track::track::extract_audio_answer;
use clip_track::track::list_thumbnails;
use clip_track::track::remove_clip;
use clip_track::track::split_clip;
use clip_track::workspace::create_workspace;
use clip_track::workspace::import_source;

fn storage() -> Storage {
    Storage::new(String::from("D:/store/"))
}

fn s(text: &str) -> String {
    text.to_string()
}

fn required(step: Step) -> Task {
    Task { step, required: true }
}

fn attempted(step: Step) -> Task {
    Task { step, required: false }
}

fn finished(success: bool, stdout: &str) -> Run {
    Run::Finished(Output {
        success,
        stdout: stdout.as_bytes().to_vec(),
        stderr: String::new(),
    })
}

#[test]
fn task_constructors() {
    assert_eq!(Task::required(Step::MakeDir(s("a"))), required(Step::MakeDir(s("a"))));
    assert_eq!(Task::attempted(Step::MakeDir(s("a"))), attempted(Step::MakeDir(s("a"))));
    assert!(Task::required(Step::RemoveFile(s("a"))).required);
    assert!(!Task::attempted(Step::RemoveFile(s("a"))).required);
}

#[test]
fn steps_of_the_engine_have_a_command() {
    assert_eq!(
        Step::Thumbnails(s("t/1.mp4"), s("t/1")).command(),
        Some(thumbnails_command("t/1.mp4", "t/1"))
    );
    assert_eq!(
        Step::Split(s("t/1.mp4"), s("10"), s("t/2.mp4"), s("t/3.mp4")).command(),
        Some(split_command("t/1.mp4", "10", "t/2.mp4", "t/3.mp4"))
    );
    let audio = Step::ExtractAudio(s("t/1.mp4"), s("t/a.mp3")).command().unwrap();
    assert_eq!(audio.args[audio.args.len() - 1], "t/a.mp3");
    assert_eq!(audio.args[4], "-map");
    let mute = Step::Mute(s("t/1.mp4"), s("t/temp.mp4")).command().unwrap();
    assert_eq!(mute.args[2], "-an");
    let concat = Step::Concat(s("merge_list.txt"), s("f/9.mp4")).command().unwrap();
    assert_eq!(concat.args[2], "concat");
    assert_eq!(concat.args[6], "merge_list.txt");
}

#[test]
fn steps_on_files_have_no_command() {
    assert_eq!(Step::MakeDir(s("a")).command(), None);
    assert_eq!(Step::Copy(s("a"), s("b")).command(), None);
    assert_eq!(Step::RemoveFile(s("a")).command(), None);
    assert_eq!(Step::RemoveTree(s("a")).command(), None);
    assert_eq!(Step::Rename(s("a"), s("b")).command(), None);
    assert_eq!(Step::Clear(s("a")).command(), None);
    assert_eq!(Step::Write(s("a"), s("text")).command(), None);
}

#[test]
fn failure_of_each_kind_of_step() {
    assert_eq!(
        Step::Split(s("a"), s("1"), s("b"), s("c")).failure("moov atom not found"),
        Failure::SplitFailed(s("moov atom not found"))
    );
    assert_eq!(Step::ExtractAudio(s("a"), s("b")).failure("x"), Failure::TranscodeFailed);
    assert_eq!(Step::Mute(s("a"), s("b")).failure("x"), Failure::TranscodeFailed);
    assert_eq!(Step::Concat(s("a"), s("b")).failure("x"), Failure::TranscodeFailed);
    assert_eq!(Step::Thumbnails(s("a"), s("b")).failure("x"), Failure::TranscodeFailed);
    assert_eq!(Step::MakeDir(s("a")).failure(""), Failure::FilesystemError);
    assert_eq!(Step::Copy(s("a"), s("b")).failure(""), Failure::FilesystemError);
    assert_eq!(Step::RemoveFile(s("a")).failure(""), Failure::FilesystemError);
    assert_eq!(Step::RemoveTree(s("a")).failure(""), Failure::FilesystemError);
    assert_eq!(Step::Rename(s("a"), s("b")).failure(""), Failure::FilesystemError);
    assert_eq!(Step::Clear(s("a")).failure(""), Failure::FilesystemError);
    assert_eq!(Step::Write(s("a"), s("b")).failure(""), Failure::FilesystemError);
}

#[test]
fn creating_a_workspace_makes_its_directory() {
    assert_eq!(
        create_workspace(&storage(), "proj1"),
        vec![attempted(Step::MakeDir(s("D:/store/proj1")))]
    );
}

#[test]
fn creating_a_workspace_twice_plans_the_same() {
    assert_eq!(
        create_workspace(&storage(), "proj1"),
        create_workspace(&storage(), "proj1")
    );
}

#[test]
fn an_import_is_named_after_the_moment() {
    let plan = import_source(&storage(), "C:\\videos\\clip.mp4", "proj1", 1_700_000_000_123);
    assert_eq!(plan.name, "imported_1700000000123.mp4");
    assert_eq!(
        plan.tasks,
        vec![
            required(Step::MakeDir(s("D:/store/proj1/import"))),
            attempted(Step::Copy(
                s("C:\\videos\\clip.mp4"),
                s("D:/store/proj1/import/imported_1700000000123.mp4")
            )),
        ]
    );
}

#[test]
fn an_import_keeps_the_extension() {
    let plan = import_source(&storage(), "C:\\v\\holiday.MOV", "p", 5);
    assert_eq!(plan.name, "imported_5.MOV");
}

#[test]
fn adding_a_clip() {
    let plan = add_clip(&storage(), "proj1", "imported_1700000000123.mp4", 1_700_000_000_456);
    assert_eq!(plan.clip_id, "1700000000456");
    assert_eq!(plan.video, "D:/store/proj1/videoTrack/1700000000456.mp4");
    assert_eq!(
        plan.tasks,
        vec![
            required(Step::MakeDir(s("D:/store/proj1/videoTrack"))),
            required(Step::MakeDir(s("D:/store/proj1/videoTrack/1700000000456"))),
            attempted(Step::Copy(
                s("D:/store/proj1/import/imported_1700000000123.mp4"),
                s("D:/store/proj1/videoTrack/1700000000456.mp4")
            )),
        ]
    );
    assert_eq!(
        plan.duration_probe,
        duration_command("D:/store/proj1/videoTrack/1700000000456.mp4")
    );
    assert_eq!(
        plan.audio_probe,
        audio_test_command("D:/store/proj1/videoTrack/1700000000456.mp4")
    );
    assert_eq!(
        plan.thumbnails,
        vec![
            required(Step::MakeDir(s("D:/store/proj1/videoTrack/1700000000456"))),
            attempted(Step::Thumbnails(
                s("D:/store/proj1/videoTrack/1700000000456.mp4"),
                s("D:/store/proj1/videoTrack/1700000000456")
            )),
        ]
    );
}

#[test]
fn an_added_clip_records_what_the_probes_said() {
    let clip = added_clip("1700000000456", &finished(true, "30.000000\n"), &finished(true, ""));
    assert_eq!(clip.id, "1700000000456");
    assert_eq!(clip.length, ClipLength { micros: 30_000_000 });
    assert!(clip.has_audio);
}

#[test]
fn an_added_clip_has_length_zero_where_the_probe_failed() {
    let clip = added_clip("7", &finished(false, "30.0"), &finished(false, ""));
    assert_eq!(clip.length, ClipLength { micros: 0 });
    assert!(!clip.has_audio);
    let clip = added_clip("7", &Run::NotStarted(s("gone")), &Run::NotStarted(s("gone")));
    assert_eq!(clip.length.micros, 0);
    assert!(!clip.has_audio);
    let clip = added_clip("7", &finished(true, "N/A"), &finished(true, ""));
    assert_eq!(clip.length.micros, 0);
    assert!(clip.has_audio);
}

#[test]
fn splitting_a_clip() {
    let plan = split_clip(
        &storage(),
        "proj1",
        "1700000000456.mp4",
        "1700000000456",
        "10",
        1_700_000_000_999,
    );
    assert_eq!(plan.first_id, "1700000000999");
    assert_eq!(plan.second_id, "1700000001000");
    assert_eq!(
        plan.tasks,
        vec![
            required(Step::Split(
                s("D:/store/proj1/videoTrack/1700000000456.mp4"),
                s("10"),
                s("D:/store/proj1/videoTrack/1700000000999.mp4"),
                s("D:/store/proj1/videoTrack/1700000001000.mp4")
            )),
            attempted(Step::RemoveFile(s("D:/store/proj1/videoTrack/1700000000456.mp4"))),
            attempted(Step::RemoveTree(s("D:/store/proj1/videoTrack/1700000000456"))),
        ]
    );
    assert_eq!(
        plan.first_thumbnails,
        vec![
            required(Step::MakeDir(s("D:/store/proj1/videoTrack/1700000000999"))),
            attempted(Step::Thumbnails(
                s("D:/store/proj1/videoTrack/1700000000999.mp4"),
                s("D:/store/proj1/videoTrack/1700000000999")
            )),
        ]
    );
    assert_eq!(
        plan.second_thumbnails,
        vec![
            required(Step::MakeDir(s("D:/store/proj1/videoTrack/1700000001000"))),
            attempted(Step::Thumbnails(
                s("D:/store/proj1/videoTrack/1700000001000.mp4"),
                s("D:/store/proj1/videoTrack/1700000001000")
            )),
        ]
    );
}

#[test]
fn the_two_halves_of_a_split_differ() {
    for now in [0u128, 9, 99, 1_700_000_000_999, u128::MAX - 1] {
        let plan = split_clip(&storage(), "p", "c.mp4", "c", "1", now);
        assert_ne!(plan.first_id, plan.second_id);
    }
}

#[test]
fn detaching_audio() {
    let plan = extract_audio(&storage(), "proj1", "1700000001000.mp4", "1700000001000");
    assert_eq!(plan.audio_name, "1700000001000.mp3");
    assert_eq!(
        plan.tasks,
        vec![
            required(Step::ExtractAudio(
                s("D:/store/proj1/videoTrack/1700000001000.mp4"),
                s("D:/store/proj1/videoTrack/1700000001000.mp3")
            )),
            required(Step::Mute(
                s("D:/store/proj1/videoTrack/1700000001000.mp4"),
                s("D:/store/proj1/videoTrack/temp.mp4")
            )),
            required(Step::RemoveFile(s("D:/store/proj1/videoTrack/1700000001000.mp4"))),
            required(Step::Rename(
                s("D:/store/proj1/videoTrack/temp.mp4"),
                s("D:/store/proj1/videoTrack/1700000001000.mp4")
            )),
        ]
    );
}

#[test]
fn removing_a_clip() {
    assert_eq!(
        remove_clip(&storage(), "proj1", "1700000000999.mp4", "1700000000999"),
        vec![
            required(Step::RemoveFile(s("D:/store/proj1/videoTrack/1700000000999.mp4"))),
            required(Step::RemoveTree(s("D:/store/proj1/videoTrack/1700000000999"))),
        ]
    );
}

#[test]
fn thumbnails_are_listed_in_the_order_found() {
    let entries = Some(vec![s("0002.png"), s("0001.png"), s("0003.png")]);
    assert_eq!(
        list_thumbnails("D:/store/proj1/videoTrack/7", &entries),
        vec![
            s("D:/store/proj1/videoTrack/7/0002.png"),
            s("D:/store/proj1/videoTrack/7/0001.png"),
            s("D:/store/proj1/videoTrack/7/0003.png"),
        ]
    );
}

#[test]
fn no_thumbnails_yet() {
    assert_eq!(list_thumbnails("d", &Some(Vec::new())), Vec::<String>::new());
}

#[test]
fn no_thumbnails_where_the_directory_cannot_be_read() {
    assert_eq!(
        list_thumbnails("D:/store/proj1/videoTrack/1700000001000", &None),
        Vec::<String>::new()
    );
    assert_eq!(list_thumbnails("", &None), Vec::<String>::new());
}

#[test]
fn an_import_from_a_path_written_with_slashes() {
    let plan = import_source(&storage(), "C:/my.videos/clip", "proj1", 1_700_000_000_000);
    assert_eq!(plan.name, "imported_1700000000000.clip");
    assert!(plan.name.starts_with("imported_1700000000000"));
    assert!(!plan.name.contains('/'));
    assert!(!plan.name.contains('\\'));
    assert_eq!(
        plan.tasks[1],
        attempted(Step::Copy(
            s("C:/my.videos/clip"),
            s("D:/store/proj1/import/imported_1700000000000.clip")
        ))
    );
    let plan = import_source(&storage(), "/home/me/videos/clip.mp4", "proj1", 7);
    assert_eq!(plan.name, "imported_7.mp4");
    let plan = import_source(&storage(), "C:\\videos/2024.05\\clip.mov", "proj1", 7);
    assert_eq!(plan.name, "imported_7.mov");
}

#[test]
fn an_import_of_a_path_that_names_no_file() {
    let plan = import_source(&storage(), "C:/videos/", "proj1", 7);
    assert_eq!(plan.name, "imported_7.");
    let plan = import_source(&storage(), "", "proj1", 7);
    assert_eq!(plan.name, "imported_7.");
}

#[test]
fn the_answer_of_a_synthesis() {
    let plan = synthesize(&storage(), "proj1", &vec![s("1.mp4")], 1_700_000_002_000);
    assert_eq!(synthesis_answer(&plan, &Ok(())), "1700000002000.mp4");
    assert_eq!(synthesis_answer(&plan, &Err(Failure::FilesystemError)), "bad path");
}

#[test]
fn the_answer_of_an_audio_extraction() {
    let plan = extract_audio(&storage(), "proj1", "1700000001000.mp4", "1700000001000");
    assert_eq!(extract_audio_answer(&plan, &Ok(())), "1700000001000.mp3");
    assert_eq!(extract_audio_answer(&plan, &Err(Failure::TranscodeFailed)), "500");
    assert_eq!(extract_audio_answer(&plan, &Err(Failure::FilesystemError)), "500");
}

#[test]
fn planning_a_synthesis() {
    let clips = vec![s("1700000000999.mp4"), s("1700000001000.mp4")];
    let plan = synthesize(&storage(), "proj1", &clips, 1_700_000_002_000);
    assert_eq!(plan.output_name, "1700000002000.mp4");
    assert_eq!(
        plan.inputs,
        vec![
            s("D:/store/proj1/videoTrack/1700000000999.mp4"),
            s("D:/store/proj1/videoTrack/1700000001000.mp4"),
        ]
    );
    assert_eq!(
        plan.prepare,
        vec![
            required(Step::MakeDir(s("D:/store/proj1/final_video"))),
            required(Step::Clear(s("D:/store/proj1/final_video"))),
        ]
    );
    assert_eq!(
        plan.merge,
        vec![
            required(Step::Write(
                s("merge_list.txt"),
                s("file 'D:\\store\\proj1\\videoTrack\\1700000000999.mp4'\nfile 'D:\\store\\proj1\\videoTrack\\1700000001000.mp4'\n")
            )),
            required(Step::Concat(
                s("merge_list.txt"),
                s("D:/store/proj1/final_video/1700000002000.mp4")
            )),
        ]
    );
}

#[test]
fn a_synthesis_keeps_the_order_of_the_clips() {
    let clips = vec![s("b.mp4"), s("a.mp4")];
    let plan = synthesize(&storage(), "p", &clips, 1);
    assert_eq!(
        plan.inputs,
        vec![s("D:/store/p/videoTrack/b.mp4"), s("D:/store/p/videoTrack/a.mp4")]
    );
}

#[test]
fn a_synthesis_of_nothing() {
    let plan = synthesize(&storage(), "p", &Vec::new(), 1);
    assert_eq!(plan.inputs, Vec::<String>::new());
    assert_eq!(plan.merge[0], required(Step::Write(s("merge_list.txt"), s(""))));
}

#[test]
fn the_marker_is_written_only_after_a_join_that_succeeded() {
    assert_eq!(
        after_merge(&storage(), "proj1", true),
        vec![
            attempted(Step::RemoveFile(s("merge_list.txt"))),
            attempted(Step::Write(
                s("D:/store/proj1/final_video/ok.txt"),
                s("file generate success")
            )),
        ]
    );
    assert_eq!(
        after_merge(&storage(), "proj1", false),
        vec![attempted(Step::RemoveFile(s("merge_list.txt")))]
    );
}

#[test]
fn the_marker_lies_in_the_final_area() {
    assert_eq!(marker_path(&storage(), "proj1"), "D:/store/proj1/final_video/ok.txt");
}

#[test]
fn the_final_path_is_given_only_with_the_marker() {
    assert_eq!(
        query_final_path(&storage(), "proj1", "1700000002000.mp4", true),
        "D:/store/proj1/final_video/1700000002000.mp4"
    );
    assert_eq!(query_final_path(&storage(), "proj1", "1700000002000.mp4", false), "");
}

#[test]
fn the_final_path_is_never_empty_with_the_marker() {
    let bare = Storage::new(String::new());
    assert_eq!(query_final_path(&bare, "", "", true), "final_video/");
    assert_eq!(query_final_path(&bare, "", "", false), "");
}

#[test]
fn a_required_step_that_fails_ends_the_command() {
    let task = required(Step::RemoveFile(s("a")));
    assert_eq!(task.settle(Ok(())), Ok(()));
    assert_eq!(
        task.settle(Err(Failure::FilesystemError)),
        Err(Failure::FilesystemError)
    );
    assert_eq!(
        task.settle(Err(Failure::SplitFailed(s("why")))),
        Err(Failure::SplitFailed(s("why")))
    );
}

#[test]
fn a_step_that_is_only_tried_may_fail() {
    let task = attempted(Step::RemoveFile(s("a")));
    assert_eq!(task.settle(Ok(())), Ok(()));
    assert_eq!(task.settle(Err(Failure::FilesystemError)), Ok(()));
    assert_eq!(task.settle(Err(Failure::TranscodeFailed)), Ok(()));
}

#[test]
fn a_run_tells_how_it_went() {
    let good = finished(true, "");
    assert!(good.succeeded());
    assert_eq!(good.diagnostic(), "");
    let bad = Run::Finished(Output {
        success: false,
        stdout: Vec::new(),
        stderr: s("Invalid data found"),
    });
    assert!(!bad.succeeded());
    assert_eq!(bad.diagnostic(), "Invalid data found");
    let none = Run::NotStarted(s("program not found"));
    assert!(!none.succeeded());
    assert_eq!(none.diagnostic(), "program not found");
}

#[test]
fn the_outcome_of_a_step_follows_its_run() {
    let split = Step::Split(s("a"), s("1"), s("b"), s("c"));
    let mute = Step::Mute(s("a"), s("b"));
    let good = finished(true, "");
    let bad = Run::Finished(Output {
        success: false,
        stdout: Vec::new(),
        stderr: s("Invalid data found"),
    });
    let none = Run::NotStarted(s("program not found"));
    assert_eq!(split.outcome(&good), Ok(()));
    assert_eq!(
        split.outcome(&bad),
        Err(Failure::SplitFailed(s("Invalid data found")))
    );
    assert_eq!(
        split.outcome(&none),
        Err(Failure::SplitFailed(s("program not found")))
    );
    assert_eq!(mute.outcome(&good), Ok(()));
    assert_eq!(mute.outcome(&bad), Err(Failure::TranscodeFailed));
    assert_eq!(mute.outcome(&none), Err(Failure::TranscodeFailed));
    assert_eq!(
        Step::ExtractAudio(s("a"), s("b")).outcome(&bad),
        Err(Failure::TranscodeFailed)
    );
    assert_eq!(Step::Concat(s("a"), s("b")).outcome(&bad), Err(Failure::TranscodeFailed));
    assert_eq!(Step::Thumbnails(s("a"), s("b")).outcome(&bad), Err(Failure::TranscodeFailed));
    assert_eq!(Step::RemoveFile(s("a")).outcome(&bad), Err(Failure::FilesystemError));
    assert_eq!(Step::RemoveFile(s("a")).outcome(&good), Ok(()));
}
