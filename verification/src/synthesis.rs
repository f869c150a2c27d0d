//! Joining the clips of the track into the final video.
//!
//! The final-video area holds at most one result. A synthesis first empties
//! the area; the join itself is left to run on its own, and a marker file
//! written after it says that the result is complete.

use vstd::prelude::*;
use vstd::string::StringExecFns;
use crate::engine::concat_manifest;
use crate::engine::manifest;
use crate::paths::area_path;
use crate::paths::area_tag;
use crate::paths::clip_file;
use crate::paths::clip_file_name;
use crate::paths::joined;
use crate::paths::lemma_clip_names_differ;
use crate::paths::lemma_joined_injective;
use crate::paths::sentinel_file;
use crate::paths::sentinel_name;
use crate::paths::Area;
use crate::paths::Storage;
use crate::probe::Failure;
use crate::steps::apply;
use crate::steps::attempted;
use crate::steps::below;
use crate::steps::lemma_entry_below;
use crate::steps::required;
use crate::steps::run;
use crate::steps::steps_in;
use crate::steps::tasks_of;
use crate::steps::Step;
use crate::steps::StepView;
use crate::steps::Task;
use crate::steps::TaskView;
use crate::steps::Tree;
use crate::text::decimal;
use crate::text::decimal_digits;
use crate::text::texts;
use crate::track::on_track;

verus! {

/// The name of the manifest that lists the inputs of a join. It is written
/// where the program runs and deleted after the join.
pub open spec fn manifest_file() -> Seq<char> {
    "merge_list.txt"@
}

/// What the marker file holds. Nothing reads it.
pub open spec fn sentinel_text() -> Seq<char> {
    "file generate success"@
}

/// The final-video area of a workspace.
pub open spec fn final_area(root: Seq<char>, workspace: Seq<char>) -> Seq<char> {
    area_path(root, workspace, Area::FinalVideo)
}

/// The path of the result of the synthesis started at the moment `millis`.
pub open spec fn output_path(root: Seq<char>, workspace: Seq<char>, millis: nat) -> Seq<char> {
    joined(final_area(root, workspace), clip_file(decimal_digits(millis)))
}

/// The path of the marker file.
pub open spec fn sentinel_path(root: Seq<char>, workspace: Seq<char>) -> Seq<char> {
    joined(final_area(root, workspace), sentinel_file())
}

/// The files of the clips to join, in the order given.
pub open spec fn resolved(root: Seq<char>, workspace: Seq<char>, clips: Seq<Seq<char>>) -> Seq<
    Seq<char>,
> {
    clips.map_values(|c: Seq<char>| on_track(root, workspace, c))
}

/// The steps to take before the join: the final-video area is made, and
/// whatever it holds is deleted.
pub open spec fn prepare_tasks(root: Seq<char>, workspace: Seq<char>) -> Seq<TaskView> {
    seq![
        required(StepView::MakeDir(final_area(root, workspace))),
        required(StepView::Clear(final_area(root, workspace))),
    ]
}

/// The steps of the join: the manifest is written, and the engine joins what
/// it lists into the result.
pub open spec fn merge_tasks(
    root: Seq<char>,
    workspace: Seq<char>,
    clips: Seq<Seq<char>>,
    millis: nat,
) -> Seq<TaskView> {
    seq![
        required(StepView::Write(manifest_file(), manifest(resolved(root, workspace, clips)))),
        required(StepView::Concat(manifest_file(), output_path(root, workspace, millis))),
    ]
}

/// The steps to take after the join: the manifest is deleted whatever came
/// of the join, and the marker is written only where the join succeeded.
pub open spec fn finish_tasks(root: Seq<char>, workspace: Seq<char>, merged: bool) -> Seq<
    TaskView,
> {
    if merged {
        seq![
            attempted(StepView::RemoveFile(manifest_file())),
            attempted(StepView::Write(sentinel_path(root, workspace), sentinel_text())),
        ]
    } else {
        seq![attempted(StepView::RemoveFile(manifest_file()))]
    }
}

/// What a synthesis takes.
#[derive(Clone, Debug, PartialEq, Eq)]
pub struct Synthesis {
    /// The name of the result. It is known before the result exists.
    pub output_name: String,
    /// The files to join, in order.
    pub inputs: Vec<String>,
    /// The steps to take at once, in order.
    pub prepare: Vec<Task>,
    /// The steps of the join, left to run on their own once the steps
    /// above are done.
    pub merge: Vec<Task>,
}

/// Plans the synthesis of the clips whose files are `clips`, in that order,
/// at the moment `millis`, after which the result is named.
pub fn synthesize(storage: &Storage, workspace: &str, clips: &Vec<String>, millis: u128) -> (plan:
    Synthesis)
    ensures
        plan.output_name@ == clip_file(decimal_digits(millis as nat)),
        texts(plan.inputs@) == resolved(storage.root@, workspace@, texts(clips@)),
        tasks_of(plan.prepare@) == prepare_tasks(storage.root@, workspace@),
        tasks_of(plan.merge@) == merge_tasks(
            storage.root@,
            workspace@,
            texts(clips@),
            millis as nat,
        ),
{
    let mut inputs: Vec<String> = Vec::new();
    let mut i: usize = 0;
    while i < clips.len()
        invariant
            i <= clips@.len(),
            inputs@.len() == i,
            forall|j: int|
                0 <= j < i ==> (#[trigger] inputs@[j])@ == on_track(
                    storage.root@,
                    workspace@,
                    clips@[j]@,
                ),
        decreases clips@.len() - i,
    {
        inputs.push(storage.entry(workspace, Area::VideoTrack, clips[i].as_str()));
        i = i + 1;
    }
    assert(texts(inputs@) =~= resolved(storage.root@, workspace@, texts(clips@)));
    let stamp = decimal(millis);
    let output_name = clip_file_name(stamp.as_str());
    let area = storage.area_dir(workspace, Area::FinalVideo);
    let output = storage.entry(workspace, Area::FinalVideo, output_name.as_str());
    let mut prepare: Vec<Task> = Vec::new();
    prepare.push(Task::required(Step::MakeDir(area.clone())));
    prepare.push(Task::required(Step::Clear(area)));
    assert(tasks_of(prepare@) =~= prepare_tasks(storage.root@, workspace@));
    let mut merge: Vec<Task> = Vec::new();
    merge.push(
        Task::required(Step::Write(String::from_str("merge_list.txt"), concat_manifest(&inputs))),
    );
    merge.push(Task::required(Step::Concat(String::from_str("merge_list.txt"), output)));
    assert(tasks_of(merge@) =~= merge_tasks(
        storage.root@,
        workspace@,
        texts(clips@),
        millis as nat,
    ));
    Synthesis { output_name, inputs, prepare, merge }
}

/// What the caller is told where the final-video area could not be made
/// ready.
pub open spec fn synthesis_refusal() -> Seq<char> {
    "bad path"@
}

/// What the caller of a synthesis is told, from how the steps to take at
/// once went: the name of the result where they came to their end, else the
/// refusal. The join is started only in the first case.
pub fn synthesis_answer(plan: &Synthesis, prepared: &Result<(), Failure>) -> (answer: String)
    ensures
        prepared is Ok ==> answer@ == plan.output_name@,
        prepared is Err ==> answer@ == synthesis_refusal(),
{
    match prepared {
        Ok(_) => plan.output_name.clone(),
        Err(_) => String::from_str("bad path"),
    }
}

/// The steps to take once the join has ended; `merged` tells whether every
/// step of it succeeded.
pub fn after_merge(storage: &Storage, workspace: &str, merged: bool) -> (tasks: Vec<Task>)
    ensures
        tasks_of(tasks@) == finish_tasks(storage.root@, workspace@, merged),
{
    let mut tasks: Vec<Task> = Vec::new();
    tasks.push(Task::attempted(Step::RemoveFile(String::from_str("merge_list.txt"))));
    if merged {
        tasks.push(
            Task::attempted(
                Step::Write(
                    marker_path(storage, workspace),
                    String::from_str("file generate success"),
                ),
            ),
        );
    }
    assert(tasks_of(tasks@) =~= finish_tasks(storage.root@, workspace@, merged));
    tasks
}

/// The path of the marker file of a workspace.
pub fn marker_path(storage: &Storage, workspace: &str) -> (path: String)
    ensures
        path@ == sentinel_path(storage.root@, workspace@),
{
    let name = sentinel_name();
    storage.entry(workspace, Area::FinalVideo, name.as_str())
}

/// The path of the final video `output` of a workspace, where the marker
/// file is present; the empty string where it is not. The path is never
/// empty, so the answer is empty exactly where the marker is absent.
pub fn query_final_path(storage: &Storage, workspace: &str, output: &str, marker_present: bool) -> (path:
    String)
    ensures
        marker_present ==> path@ == joined(final_area(storage.root@, workspace@), output@),
        !marker_present ==> path@ == Seq::<char>::empty(),
        path@.len() > 0 <==> marker_present,
{
    if marker_present {
        proof {
            lemma_final_area(storage.root@, workspace@);
        }
        storage.entry(workspace, Area::FinalVideo, output)
    } else {
        String::new()
    }
}

/// The path of the final-video area ends in the area's name.
pub proof fn lemma_final_area(root: Seq<char>, workspace: Seq<char>)
    ensures
        final_area(root, workspace).len() >= 11,
        final_area(root, workspace).subrange(
            final_area(root, workspace).len() - 11,
            final_area(root, workspace).len() as int,
        ) == area_tag(Area::FinalVideo),
        final_area(root, workspace).last() == 'o',
{
    reveal_strlit("final_video");
    let tag = area_tag(Area::FinalVideo);
    let area = final_area(root, workspace);
    assert(tag.len() == 11);
    assert(area.subrange(area.len() - 11, area.len() as int) =~= tag);
    assert(area.last() == tag[10]);
}

/// The manifest does not lie in the final-video area.
pub proof fn lemma_manifest_outside(root: Seq<char>, workspace: Seq<char>)
    ensures
        !below(manifest_file(), final_area(root, workspace)),
{
    reveal_strlit("merge_list.txt");
    reveal_strlit("final_video");
    lemma_final_area(root, workspace);
    let area = final_area(root, workspace);
    let list = manifest_file();
    if below(list, area) {
        let prefix = joined(area, Seq::empty());
        let at = area.len() - 11;
        assert(prefix =~= area.push('/'));
        assert(list.subrange(0, prefix.len() as int)[at] == list[at]);
        assert(prefix[at] == area[at]);
        assert(area.subrange(at, area.len() as int)[0] == area[at]);
        assert(area[at] == 'f');
        assert(0 <= at <= 2);
    }
}

/// The steps of one whole synthesis whose join succeeded, in order.
pub open spec fn round(
    root: Seq<char>,
    workspace: Seq<char>,
    clips: Seq<Seq<char>>,
    millis: nat,
) -> Seq<StepView> {
    steps_in(
        prepare_tasks(root, workspace) + merge_tasks(root, workspace, clips, millis)
            + finish_tasks(root, workspace, true),
    )
}

/// After a synthesis whose join succeeded, the final-video area holds the
/// result and the marker, and no other file.
pub proof fn lemma_single_slot(
    root: Seq<char>,
    workspace: Seq<char>,
    clips: Seq<Seq<char>>,
    millis: nat,
    before: Tree,
)
    ensures
        ({
            let after = run(round(root, workspace, clips, millis), before);
            let area = final_area(root, workspace);
            &&& after.files.contains(output_path(root, workspace, millis))
            &&& after.files.contains(sentinel_path(root, workspace))
            &&& after.dirs.contains(area)
            &&& forall|f: Seq<char>|
                after.files.contains(f) && below(f, area) ==> f == output_path(
                    root,
                    workspace,
                    millis,
                ) || f == sentinel_path(root, workspace)
        }),
{
    let area = final_area(root, workspace);
    let list = manifest_file();
    let output = output_path(root, workspace, millis);
    let marker = sentinel_path(root, workspace);
    let text = manifest(resolved(root, workspace, clips));
    let steps = round(root, workspace, clips, millis);
    assert(steps =~= seq![
        StepView::MakeDir(area),
        StepView::Clear(area),
        StepView::Write(list, text),
        StepView::Concat(list, output),
        StepView::RemoveFile(list),
        StepView::Write(marker, sentinel_text()),
    ]);
    reveal_with_fuel(run, 7);
    let t1 = apply(steps[0], before);
    let t2 = apply(steps[1], t1);
    let t3 = apply(steps[2], t2);
    let t4 = apply(steps[3], t3);
    let t5 = apply(steps[4], t4);
    let t6 = apply(steps[5], t5);
    assert(steps.drop_last() =~= steps.subrange(0, 5));
    assert(steps.subrange(0, 5).drop_last() =~= steps.subrange(0, 4));
    assert(steps.subrange(0, 4).drop_last() =~= steps.subrange(0, 3));
    assert(steps.subrange(0, 3).drop_last() =~= steps.subrange(0, 2));
    assert(steps.subrange(0, 2).drop_last() =~= steps.subrange(0, 1));
    assert(steps.subrange(0, 1).drop_last() =~= steps.subrange(0, 0));
    assert(run(steps.subrange(0, 0), before) == before);
    assert(run(steps.subrange(0, 1), before) == t1);
    assert(run(steps.subrange(0, 2), before) == t2);
    assert(run(steps.subrange(0, 3), before) == t3);
    assert(run(steps.subrange(0, 4), before) == t4);
    assert(run(steps.subrange(0, 5), before) == t5);
    assert(run(steps, before) == t6);
    lemma_manifest_outside(root, workspace);
    reveal_strlit(".mp4");
    reveal_strlit("ok.txt");
    lemma_entry_below(area, clip_file(decimal_digits(millis)));
    lemma_entry_below(area, sentinel_file());
    assert(list != output);
    assert(list != marker);
}

/// The marker is written last: while a synthesis has been prepared and its
/// join is under way or has failed, the marker does not exist, whatever the
/// final-video area held before.
pub proof fn lemma_marker_comes_last(
    root: Seq<char>,
    workspace: Seq<char>,
    clips: Seq<Seq<char>>,
    millis: nat,
    before: Tree,
)
    ensures
        ({
            let marker = sentinel_path(root, workspace);
            let prepared = run(steps_in(prepare_tasks(root, workspace)), before);
            let merged = run(steps_in(merge_tasks(root, workspace, clips, millis)), prepared);
            let failed = run(steps_in(finish_tasks(root, workspace, false)), merged);
            &&& !prepared.files.contains(marker)
            &&& !merged.files.contains(marker)
            &&& !failed.files.contains(marker)
        }),
{
    let area = final_area(root, workspace);
    let list = manifest_file();
    let output = output_path(root, workspace, millis);
    let marker = sentinel_path(root, workspace);
    let prepare = steps_in(prepare_tasks(root, workspace));
    let merge = steps_in(merge_tasks(root, workspace, clips, millis));
    let finish = steps_in(finish_tasks(root, workspace, false));
    assert(prepare =~= seq![StepView::MakeDir(area), StepView::Clear(area)]);
    assert(merge =~= seq![
        StepView::Write(list, manifest(resolved(root, workspace, clips))),
        StepView::Concat(list, output),
    ]);
    assert(finish =~= seq![StepView::RemoveFile(list)]);
    reveal_with_fuel(run, 3);
    assert(prepare.drop_last() =~= prepare.subrange(0, 1));
    assert(prepare.subrange(0, 1).drop_last() =~= prepare.subrange(0, 0));
    assert(merge.drop_last() =~= merge.subrange(0, 1));
    assert(merge.subrange(0, 1).drop_last() =~= merge.subrange(0, 0));
    assert(finish.drop_last() =~= finish.subrange(0, 0));
    lemma_manifest_outside(root, workspace);
    reveal_strlit("ok.txt");
    lemma_entry_below(area, sentinel_file());
    lemma_marker_is_no_clip(area, decimal_digits(millis));
}

/// Of two syntheses in a row whose joins succeeded, started at different
/// moments, only the second leaves its result: the final-video area then
/// holds the second result and the marker, and the first result is gone.
pub proof fn lemma_second_synthesis_replaces_first(
    root: Seq<char>,
    workspace: Seq<char>,
    first_clips: Seq<Seq<char>>,
    first_millis: nat,
    second_clips: Seq<Seq<char>>,
    second_millis: nat,
    before: Tree,
)
    requires
        first_millis != second_millis,
    ensures
        ({
            let between = run(round(root, workspace, first_clips, first_millis), before);
            let after = run(round(root, workspace, second_clips, second_millis), between);
            let area = final_area(root, workspace);
            &&& after.files.contains(output_path(root, workspace, second_millis))
            &&& after.files.contains(sentinel_path(root, workspace))
            &&& !after.files.contains(output_path(root, workspace, first_millis))
            &&& forall|f: Seq<char>|
                after.files.contains(f) && below(f, area) ==> f == output_path(
                    root,
                    workspace,
                    second_millis,
                ) || f == sentinel_path(root, workspace)
        }),
{
    let area = final_area(root, workspace);
    let between = run(round(root, workspace, first_clips, first_millis), before);
    lemma_single_slot(root, workspace, second_clips, second_millis, between);
    reveal_strlit(".mp4");
    lemma_entry_below(area, clip_file(decimal_digits(first_millis)));
    lemma_clip_names_differ(first_millis, second_millis);
    lemma_joined_injective(
        area,
        clip_file(decimal_digits(first_millis)),
        clip_file(decimal_digits(second_millis)),
    );
    lemma_marker_is_no_clip(area, decimal_digits(first_millis));
}

/// The marker file is not the file of any clip.
pub proof fn lemma_marker_is_no_clip(base: Seq<char>, stem: Seq<char>)
    ensures
        joined(base, clip_file(stem)) != joined(base, sentinel_file()),
{
    reveal_strlit(".mp4");
    reveal_strlit("ok.txt");
    let clip = clip_file(stem);
    let marker = sentinel_file();
    assert(clip.last() == '4');
    assert(marker.last() == 't');
    lemma_joined_injective(base, clip, marker);
}

} // verus!
