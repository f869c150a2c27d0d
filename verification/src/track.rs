//! The clips on the track: adding one, splitting one in two, detaching the
//! audio of one, removing one, and listing the thumbnails of one.

use vstd::prelude::*;
use vstd::string::StringExecFns;
use crate::engine::audio_test_call;
use crate::engine::audio_test_command;
use crate::engine::duration_call;
use crate::engine::duration_command;
use crate::engine::Invocation;
use crate::paths::audio_file;
use crate::paths::audio_file_name;
use crate::paths::clip_file;
use crate::paths::clip_file_name;
use crate::paths::entry_path;
use crate::paths::lemma_clip_names_differ;
use crate::paths::lemma_joined_injective;
use crate::paths::area_path;
use crate::paths::Area;
use crate::paths::Storage;
use crate::probe::audio_present;
use crate::probe::duration_of;
use crate::probe::probed_micros;
use crate::probe::succeeded;
use crate::probe::ClipLength;
use crate::probe::Failure;
use crate::probe::Run;
use crate::steps::attempted;
use crate::steps::below;
use crate::steps::carried_out;
use crate::steps::completed;
use crate::steps::run;
use crate::steps::steps_in;
use crate::steps::Tree;
use crate::steps::required;
use crate::steps::tasks_of;
use crate::steps::Step;
use crate::steps::StepView;
use crate::steps::Task;
use crate::steps::TaskView;
use crate::text::decimal;
use crate::text::decimal_digits;
use crate::text::texts;

verus! {

/// A clip as it stands on the track.
#[derive(Clone, Debug, PartialEq, Eq)]
pub struct Clip {
    /// The stem that names the clip's file and its thumbnail directory.
    pub id: String,
    /// How long the clip runs; zero where the probe could not tell.
    pub length: ClipLength,
    /// Whether the clip has audio.
    pub has_audio: bool,
}

/// The path of an entry of the track area.
pub open spec fn on_track(root: Seq<char>, workspace: Seq<char>, name: Seq<char>) -> Seq<char> {
    entry_path(root, workspace, Area::VideoTrack, name)
}

/// The steps that make a clip's thumbnails: their directory is made, and
/// only where that succeeded the engine fills it.
pub open spec fn thumbnail_tasks(video: Seq<char>, directory: Seq<char>) -> Seq<TaskView> {
    seq![
        required(StepView::MakeDir(directory)),
        attempted(StepView::Thumbnails(video, directory)),
    ]
}

fn thumbnail_job(video: &str, directory: &str) -> (tasks: Vec<Task>)
    ensures
        tasks_of(tasks@) == thumbnail_tasks(video@, directory@),
{
    let mut tasks: Vec<Task> = Vec::new();
    tasks.push(Task::required(Step::MakeDir(String::from_str(directory))));
    tasks.push(
        Task::attempted(Step::Thumbnails(String::from_str(video), String::from_str(directory))),
    );
    assert(tasks_of(tasks@) =~= thumbnail_tasks(video@, directory@));
    tasks
}

/// What adding a clip takes.
#[derive(Clone, Debug, PartialEq, Eq)]
pub struct AddClip {
    /// The stem of the new clip.
    pub clip_id: String,
    /// The path of the clip's file.
    pub video: String,
    /// The steps to take first, in order.
    pub tasks: Vec<Task>,
    /// The call that reports the clip's duration, made once the steps are
    /// done.
    pub duration_probe: Invocation,
    /// The call that tells whether the clip has audio, made after that.
    pub audio_probe: Invocation,
    /// The steps that make the thumbnails. They are left to run on their
    /// own once both answers are in.
    pub thumbnails: Vec<Task>,
}

/// The steps of adding a clip: the track area is made, then the clip's
/// thumbnail directory, and the imported file is copied to the clip's file.
pub open spec fn add_clip_tasks(
    root: Seq<char>,
    workspace: Seq<char>,
    imported: Seq<char>,
    millis: nat,
) -> Seq<TaskView> {
    let id = decimal_digits(millis);
    seq![
        required(StepView::MakeDir(area_path(root, workspace, Area::VideoTrack))),
        required(StepView::MakeDir(on_track(root, workspace, id))),
        attempted(
            StepView::Copy(
                entry_path(root, workspace, Area::Import, imported),
                on_track(root, workspace, clip_file(id)),
            ),
        ),
    ]
}

/// Plans putting the imported file `imported` on the track of `workspace`
/// at the moment `millis`, after which the clip is named.
pub fn add_clip(storage: &Storage, workspace: &str, imported: &str, millis: u128) -> (plan:
    AddClip)
    ensures
        plan.clip_id@ == decimal_digits(millis as nat),
        plan.video@ == on_track(storage.root@, workspace@, clip_file(plan.clip_id@)),
        tasks_of(plan.tasks@) == add_clip_tasks(
            storage.root@,
            workspace@,
            imported@,
            millis as nat,
        ),
        plan.duration_probe@ == duration_call(plan.video@),
        plan.audio_probe@ == audio_test_call(plan.video@),
        tasks_of(plan.thumbnails@) == thumbnail_tasks(
            plan.video@,
            on_track(storage.root@, workspace@, plan.clip_id@),
        ),
{
    let clip_id = decimal(millis);
    let file = clip_file_name(clip_id.as_str());
    let video = storage.entry(workspace, Area::VideoTrack, file.as_str());
    let directory = storage.entry(workspace, Area::VideoTrack, clip_id.as_str());
    let mut tasks: Vec<Task> = Vec::new();
    tasks.push(Task::required(Step::MakeDir(storage.area_dir(workspace, Area::VideoTrack))));
    tasks.push(Task::required(Step::MakeDir(directory.clone())));
    tasks.push(
        Task::attempted(Step::Copy(storage.entry(workspace, Area::Import, imported), video.clone())),
    );
    assert(tasks_of(tasks@) =~= add_clip_tasks(
        storage.root@,
        workspace@,
        imported@,
        millis as nat,
    ));
    let duration_probe = duration_command(video.as_str());
    let audio_probe = audio_test_command(video.as_str());
    let thumbnails = thumbnail_job(video.as_str(), directory.as_str());
    AddClip { clip_id, video, tasks, duration_probe, audio_probe, thumbnails }
}

/// The length to record for a clip whose duration probe ran as `run`: what
/// the probe stated, or zero where it stated nothing that can be kept.
pub open spec fn recorded_micros(run: Run) -> nat {
    match probed_micros(run) {
        Some(m) => if m <= u64::MAX {
            m
        } else {
            0
        },
        None => 0,
    }
}

/// The clip that has been added, from its name and what the two probes of
/// its file answered. The length is the one that the duration probe
/// stated, or zero where that probe failed; the clip has audio exactly
/// where the audio test succeeded.
pub fn added_clip(clip_id: &str, duration_run: &Run, audio_run: &Run) -> (clip: Clip)
    ensures
        clip.id@ == clip_id@,
        clip.length.micros == recorded_micros(*duration_run),
        clip.length.micros > 0 <==> (probed_micros(*duration_run) matches Some(m) && 0 < m
            <= u64::MAX),
        clip.has_audio == succeeded(*audio_run),
{
    let length = match duration_of(duration_run) {
        Ok(l) => l,
        Err(_) => ClipLength::zero(),
    };
    Clip { id: String::from_str(clip_id), length, has_audio: audio_present(audio_run) }
}

/// What splitting a clip takes.
#[derive(Clone, Debug, PartialEq, Eq)]
pub struct SplitClip {
    /// The stem of the clip that holds what lies before the cut.
    pub first_id: String,
    /// The stem of the clip that holds the rest.
    pub second_id: String,
    /// The steps to take, in order.
    pub tasks: Vec<Task>,
    /// The steps that make the first clip's thumbnails, left to run on
    /// their own once the steps above are done.
    pub first_thumbnails: Vec<Task>,
    /// The steps that make the second clip's thumbnails, run after the
    /// first clip's, whatever came of those.
    pub second_thumbnails: Vec<Task>,
}

/// The steps of a split: the engine writes the two new clips, and only where
/// it succeeded the old clip's file and thumbnails are deleted.
pub open spec fn split_tasks(
    root: Seq<char>,
    workspace: Seq<char>,
    clip: Seq<char>,
    thumbnails: Seq<char>,
    offset: Seq<char>,
    millis: nat,
) -> Seq<TaskView> {
    seq![
        required(
            StepView::Split(
                on_track(root, workspace, clip),
                offset,
                on_track(root, workspace, clip_file(decimal_digits(millis))),
                on_track(root, workspace, clip_file(decimal_digits(millis + 1))),
            ),
        ),
        attempted(StepView::RemoveFile(on_track(root, workspace, clip))),
        attempted(StepView::RemoveTree(on_track(root, workspace, thumbnails))),
    ]
}

/// Plans splitting the clip whose file is `clip` and whose thumbnails lie in
/// `thumbnails`, at `offset`, at the moment `millis`. The first new clip is
/// named after the moment and the second after the millisecond that
/// follows, so that the two differ.
pub fn split_clip(
    storage: &Storage,
    workspace: &str,
    clip: &str,
    thumbnails: &str,
    offset: &str,
    millis: u128,
) -> (plan: SplitClip)
    requires
        millis < u128::MAX,
    ensures
        plan.first_id@ == decimal_digits(millis as nat),
        plan.second_id@ == decimal_digits((millis + 1) as nat),
        tasks_of(plan.tasks@) == split_tasks(
            storage.root@,
            workspace@,
            clip@,
            thumbnails@,
            offset@,
            millis as nat,
        ),
        tasks_of(plan.first_thumbnails@) == thumbnail_tasks(
            on_track(storage.root@, workspace@, clip_file(plan.first_id@)),
            on_track(storage.root@, workspace@, plan.first_id@),
        ),
        tasks_of(plan.second_thumbnails@) == thumbnail_tasks(
            on_track(storage.root@, workspace@, clip_file(plan.second_id@)),
            on_track(storage.root@, workspace@, plan.second_id@),
        ),
{
    let first_id = decimal(millis);
    let second_id = decimal(millis + 1);
    let first_file = clip_file_name(first_id.as_str());
    let second_file = clip_file_name(second_id.as_str());
    let source = storage.entry(workspace, Area::VideoTrack, clip);
    let first = storage.entry(workspace, Area::VideoTrack, first_file.as_str());
    let second = storage.entry(workspace, Area::VideoTrack, second_file.as_str());
    let first_dir = storage.entry(workspace, Area::VideoTrack, first_id.as_str());
    let second_dir = storage.entry(workspace, Area::VideoTrack, second_id.as_str());
    let mut tasks: Vec<Task> = Vec::new();
    tasks.push(
        Task::required(
            Step::Split(source.clone(), String::from_str(offset), first.clone(), second.clone()),
        ),
    );
    tasks.push(Task::attempted(Step::RemoveFile(source)));
    tasks.push(
        Task::attempted(Step::RemoveTree(storage.entry(workspace, Area::VideoTrack, thumbnails))),
    );
    assert(tasks_of(tasks@) =~= split_tasks(
        storage.root@,
        workspace@,
        clip@,
        thumbnails@,
        offset@,
        millis as nat,
    ));
    let first_thumbnails = thumbnail_job(first.as_str(), first_dir.as_str());
    let second_thumbnails = thumbnail_job(second.as_str(), second_dir.as_str());
    SplitClip { first_id, second_id, tasks, first_thumbnails, second_thumbnails }
}

/// What detaching the audio of a clip takes, and the name of the audio
/// file.
#[derive(Clone, Debug, PartialEq, Eq)]
pub struct ExtractAudio {
    /// The name of the audio file, which lies beside the clip.
    pub audio_name: String,
    /// The steps to take, in order.
    pub tasks: Vec<Task>,
}

/// The name of the file that holds a clip without its audio until it takes
/// the clip's place.
pub open spec fn muted_file() -> Seq<char> {
    "temp.mp4"@
}

/// The steps of detaching the audio: the audio is written beside the clip,
/// a silent copy of the clip is written, the clip is deleted, and the
/// silent copy takes its name.
pub open spec fn extract_audio_tasks(
    root: Seq<char>,
    workspace: Seq<char>,
    clip: Seq<char>,
    stem: Seq<char>,
) -> Seq<TaskView> {
    let video = on_track(root, workspace, clip);
    let muted = on_track(root, workspace, muted_file());
    seq![
        required(StepView::ExtractAudio(video, on_track(root, workspace, audio_file(stem)))),
        required(StepView::Mute(video, muted)),
        required(StepView::RemoveFile(video)),
        required(StepView::Rename(muted, video)),
    ]
}

/// Plans detaching the audio of the clip whose file is `clip` into an audio
/// file with the stem `stem`.
pub fn extract_audio(storage: &Storage, workspace: &str, clip: &str, stem: &str) -> (plan:
    ExtractAudio)
    ensures
        plan.audio_name@ == audio_file(stem@),
        tasks_of(plan.tasks@) == extract_audio_tasks(storage.root@, workspace@, clip@, stem@),
{
    let audio_name = audio_file_name(stem);
    let video = storage.entry(workspace, Area::VideoTrack, clip);
    let audio = storage.entry(workspace, Area::VideoTrack, audio_name.as_str());
    let muted = storage.entry(workspace, Area::VideoTrack, "temp.mp4");
    let mut tasks: Vec<Task> = Vec::new();
    tasks.push(Task::required(Step::ExtractAudio(video.clone(), audio)));
    tasks.push(Task::required(Step::Mute(video.clone(), muted.clone())));
    tasks.push(Task::required(Step::RemoveFile(video.clone())));
    tasks.push(Task::required(Step::Rename(muted, video)));
    assert(tasks_of(tasks@) =~= extract_audio_tasks(storage.root@, workspace@, clip@, stem@));
    ExtractAudio { audio_name, tasks }
}

/// The steps of removing a clip: its file is deleted, then its thumbnails.
pub open spec fn remove_clip_tasks(
    root: Seq<char>,
    workspace: Seq<char>,
    clip: Seq<char>,
    thumbnails: Seq<char>,
) -> Seq<TaskView> {
    seq![
        required(StepView::RemoveFile(on_track(root, workspace, clip))),
        required(StepView::RemoveTree(on_track(root, workspace, thumbnails))),
    ]
}

/// Plans removing the clip whose file is `clip` and whose thumbnails lie in
/// `thumbnails`.
pub fn remove_clip(storage: &Storage, workspace: &str, clip: &str, thumbnails: &str) -> (tasks:
    Vec<Task>)
    ensures
        tasks_of(tasks@) == remove_clip_tasks(storage.root@, workspace@, clip@, thumbnails@),
{
    let mut tasks: Vec<Task> = Vec::new();
    tasks.push(Task::required(Step::RemoveFile(storage.entry(workspace, Area::VideoTrack, clip))));
    tasks.push(
        Task::required(Step::RemoveTree(storage.entry(workspace, Area::VideoTrack, thumbnails))),
    );
    assert(tasks_of(tasks@) =~= remove_clip_tasks(
        storage.root@,
        workspace@,
        clip@,
        thumbnails@,
    ));
    tasks
}

/// The path under which an entry of a thumbnail directory is listed.
pub open spec fn listed(directory: Seq<char>, entry: Seq<char>) -> Seq<char> {
    directory.push('/') + entry
}

/// The thumbnails of a clip, from the path of their directory and what
/// reading it gave: the names found in it, or nothing where it could not be
/// read. The listing holds the path of each name, in the order in which the
/// names came, and is empty where the directory could not be read, as it is
/// while the thumbnails have not been started.
pub fn list_thumbnails(directory: &str, entries: &Option<Vec<String>>) -> (paths: Vec<String>)
    ensures
        match entries {
            Some(e) => texts(paths@) == texts(e@).map_values(
                |n: Seq<char>| listed(directory@, n),
            ),
            None => paths@.len() == 0,
        },
{
    let mut paths: Vec<String> = Vec::new();
    match entries {
        None => {},
        Some(names) => {
            let mut i: usize = 0;
            while i < names.len()
                invariant
                    i <= names@.len(),
                    paths@.len() == i,
                    forall|j: int|
                        0 <= j < i ==> (#[trigger] paths@[j])@ == listed(
                            directory@,
                            names@[j]@,
                        ),
                decreases names@.len() - i,
            {
                let mut path = String::from_str(directory);
                path.append("/");
                path.append(names[i].as_str());
                proof {
                    reveal_strlit("/");
                    assert("/"@ =~= seq!['/']);
                    assert(path@ =~= listed(directory@, names@[i as int]@));
                }
                paths.push(path);
                i = i + 1;
            }
            assert(texts(paths@) =~= texts(names@).map_values(
                |n: Seq<char>| listed(directory@, n),
            ));
        },
    }
    paths
}

/// What the caller is told where the audio could not be detached.
pub open spec fn extract_audio_refusal() -> Seq<char> {
    "500"@
}

/// What the caller of an audio extraction is told, from how its steps went:
/// the name of the audio file where they came to their end, else the
/// refusal.
pub fn extract_audio_answer(plan: &ExtractAudio, outcome: &Result<(), Failure>) -> (answer:
    String)
    ensures
        outcome is Ok ==> answer@ == plan.audio_name@,
        outcome is Err ==> answer@ == extract_audio_refusal(),
{
    match outcome {
        Ok(_) => plan.audio_name.clone(),
        Err(_) => String::from_str("500"),
    }
}

/// After a clip has been added, its file and its thumbnail directory both
/// exist.
pub proof fn lemma_added_clip_is_whole(
    root: Seq<char>,
    workspace: Seq<char>,
    imported: Seq<char>,
    millis: nat,
    before: Tree,
)
    ensures
        ({
            let after = run(steps_in(add_clip_tasks(root, workspace, imported, millis)), before);
            &&& after.files.contains(on_track(root, workspace, clip_file(decimal_digits(millis))))
            &&& after.dirs.contains(on_track(root, workspace, decimal_digits(millis)))
            &&& after.dirs.contains(area_path(root, workspace, Area::VideoTrack))
        }),
{
    let steps = steps_in(add_clip_tasks(root, workspace, imported, millis));
    let id = decimal_digits(millis);
    assert(steps =~= seq![
        StepView::MakeDir(area_path(root, workspace, Area::VideoTrack)),
        StepView::MakeDir(on_track(root, workspace, id)),
        StepView::Copy(
            entry_path(root, workspace, Area::Import, imported),
            on_track(root, workspace, clip_file(id)),
        ),
    ]);
    reveal_with_fuel(run, 4);
    assert(steps.drop_last() =~= steps.subrange(0, 2));
    assert(steps.subrange(0, 2).drop_last() =~= steps.subrange(0, 1));
    assert(steps.subrange(0, 1).drop_last() =~= steps.subrange(0, 0));
}

/// After a split that succeeded, both new clips exist, they are two
/// different files, and the old clip and its thumbnails are gone. This is
/// stated for a split whose new files are neither the old clip's file nor
/// entries of the directory given as the old clip's thumbnails.
pub proof fn lemma_split_replaces_clip(
    root: Seq<char>,
    workspace: Seq<char>,
    clip: Seq<char>,
    thumbnails: Seq<char>,
    offset: Seq<char>,
    millis: nat,
    before: Tree,
)
    requires
        on_track(root, workspace, clip) != on_track(
            root,
            workspace,
            clip_file(decimal_digits(millis)),
        ),
        on_track(root, workspace, clip) != on_track(
            root,
            workspace,
            clip_file(decimal_digits(millis + 1)),
        ),
        !below(
            on_track(root, workspace, clip_file(decimal_digits(millis))),
            on_track(root, workspace, thumbnails),
        ),
        !below(
            on_track(root, workspace, clip_file(decimal_digits(millis + 1))),
            on_track(root, workspace, thumbnails),
        ),
    ensures
        ({
            let after = run(
                steps_in(split_tasks(root, workspace, clip, thumbnails, offset, millis)),
                before,
            );
            let first = on_track(root, workspace, clip_file(decimal_digits(millis)));
            let second = on_track(root, workspace, clip_file(decimal_digits(millis + 1)));
            &&& after.files.contains(first)
            &&& after.files.contains(second)
            &&& first != second
            &&& !after.files.contains(on_track(root, workspace, clip))
            &&& !after.dirs.contains(on_track(root, workspace, thumbnails))
        }),
{
    let steps = steps_in(split_tasks(root, workspace, clip, thumbnails, offset, millis));
    let source = on_track(root, workspace, clip);
    let first = on_track(root, workspace, clip_file(decimal_digits(millis)));
    let second = on_track(root, workspace, clip_file(decimal_digits(millis + 1)));
    assert(steps =~= seq![
        StepView::Split(source, offset, first, second),
        StepView::RemoveFile(source),
        StepView::RemoveTree(on_track(root, workspace, thumbnails)),
    ]);
    reveal_with_fuel(run, 4);
    assert(steps.drop_last() =~= steps.subrange(0, 2));
    assert(steps.subrange(0, 2).drop_last() =~= steps.subrange(0, 1));
    assert(steps.subrange(0, 1).drop_last() =~= steps.subrange(0, 0));
    lemma_clip_names_differ(millis, millis + 1);
    lemma_joined_injective(
        area_path(root, workspace, Area::VideoTrack),
        clip_file(decimal_digits(millis)),
        clip_file(decimal_digits(millis + 1)),
    );
}

/// A split that the engine did not carry out changes nothing: the old clip
/// and its thumbnails stay, and the command does not come to its end.
pub proof fn lemma_failed_split_changes_nothing(
    root: Seq<char>,
    workspace: Seq<char>,
    clip: Seq<char>,
    thumbnails: Seq<char>,
    offset: Seq<char>,
    millis: nat,
    went: Seq<bool>,
    before: Tree,
)
    requires
        went.len() > 0,
        !went[0],
    ensures
        carried_out(
            split_tasks(root, workspace, clip, thumbnails, offset, millis),
            went,
            before,
        ) == before,
        !completed(split_tasks(root, workspace, clip, thumbnails, offset, millis), went),
{
}

/// After the audio of a clip has been detached, the clip's file exists
/// under its old name, the audio file exists beside it, and the silent copy
/// is no longer there under its own name. This is stated for a clip that
/// is not itself named like the silent copy or like the audio file.
pub proof fn lemma_extract_audio_keeps_clip(
    root: Seq<char>,
    workspace: Seq<char>,
    clip: Seq<char>,
    stem: Seq<char>,
    before: Tree,
)
    requires
        clip != muted_file(),
        clip != audio_file(stem),
    ensures
        ({
            let after = run(steps_in(extract_audio_tasks(root, workspace, clip, stem)), before);
            &&& after.files.contains(on_track(root, workspace, clip))
            &&& after.files.contains(on_track(root, workspace, audio_file(stem)))
            &&& !after.files.contains(on_track(root, workspace, muted_file()))
            &&& after.dirs == before.dirs
        }),
{
    let steps = steps_in(extract_audio_tasks(root, workspace, clip, stem));
    let video = on_track(root, workspace, clip);
    let audio = on_track(root, workspace, audio_file(stem));
    let muted = on_track(root, workspace, muted_file());
    assert(steps =~= seq![
        StepView::ExtractAudio(video, audio),
        StepView::Mute(video, muted),
        StepView::RemoveFile(video),
        StepView::Rename(muted, video),
    ]);
    reveal_with_fuel(run, 5);
    assert(steps.drop_last() =~= steps.subrange(0, 3));
    assert(steps.subrange(0, 3).drop_last() =~= steps.subrange(0, 2));
    assert(steps.subrange(0, 2).drop_last() =~= steps.subrange(0, 1));
    assert(steps.subrange(0, 1).drop_last() =~= steps.subrange(0, 0));
    let area = area_path(root, workspace, Area::VideoTrack);
    lemma_joined_injective(area, clip, muted_file());
    lemma_joined_injective(area, clip, audio_file(stem));
    reveal_strlit("temp.mp4");
    reveal_strlit(".mp3");
    assert(muted_file().last() == '4');
    assert(audio_file(stem).last() == '3');
    lemma_joined_injective(area, audio_file(stem), muted_file());
}

/// After a clip has been removed, neither its file nor its thumbnail
/// directory exists.
pub proof fn lemma_removed_clip_is_gone(
    root: Seq<char>,
    workspace: Seq<char>,
    clip: Seq<char>,
    thumbnails: Seq<char>,
    before: Tree,
)
    ensures
        ({
            let after = run(steps_in(remove_clip_tasks(root, workspace, clip, thumbnails)), before);
            &&& !after.files.contains(on_track(root, workspace, clip))
            &&& !after.dirs.contains(on_track(root, workspace, thumbnails))
        }),
{
    let steps = steps_in(remove_clip_tasks(root, workspace, clip, thumbnails));
    assert(steps =~= seq![
        StepView::RemoveFile(on_track(root, workspace, clip)),
        StepView::RemoveTree(on_track(root, workspace, thumbnails)),
    ]);
    reveal_with_fuel(run, 3);
    assert(steps.drop_last() =~= steps.subrange(0, 1));
    assert(steps.subrange(0, 1).drop_last() =~= steps.subrange(0, 0));
}

} // verus!
