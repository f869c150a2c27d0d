//! The steps that an editing command is made of, and what each of them does
//! to the files of a workspace.
//!
//! A command does not touch the disk itself. It says which steps are to be
//! taken, in order; whoever runs them reports how each went.

use vstd::prelude::*;
use vstd::string::StringExecFns;
use crate::engine::concat_call;
use crate::engine::concat_command;
use crate::engine::extract_audio_call;
use crate::engine::extract_audio_command;
use crate::engine::mute_call;
use crate::engine::mute_command;
use crate::engine::split_call;
use crate::engine::split_command;
use crate::engine::thumbnails_call;
use crate::engine::thumbnails_command;
use crate::engine::Invocation;
use crate::engine::InvocationView;
use crate::paths::joined;
use crate::probe::diagnostic;
use crate::probe::split_result;
use crate::probe::succeeded;
use crate::probe::transcode_result;
use crate::probe::Failure;
use crate::probe::Run;

verus! {

/// One thing done to the files of a workspace.
#[derive(Clone, Debug, PartialEq, Eq)]
pub enum Step {
    /// Make the directory, and those above it; no fault if it exists.
    MakeDir(String),
    /// Copy the first file to the second, replacing what is there.
    Copy(String, String),
    /// Delete the file.
    RemoveFile(String),
    /// Delete the directory and all that lies in it.
    RemoveTree(String),
    /// Give the first file the second's name.
    Rename(String, String),
    /// Delete every file that lies in the directory.
    Clear(String),
    /// Write the text to the file.
    Write(String, String),
    /// Fill the directory with thumbnails of the video.
    Thumbnails(String, String),
    /// Split the source at the offset into a first and a second file.
    Split(String, String, String, String),
    /// Write the audio of the video to the second file.
    ExtractAudio(String, String),
    /// Write the video without its audio to the second file.
    Mute(String, String),
    /// Join the files named in the manifest into the output.
    Concat(String, String),
}

/// A step as a value.
pub enum StepView {
    MakeDir(Seq<char>),
    Copy(Seq<char>, Seq<char>),
    RemoveFile(Seq<char>),
    RemoveTree(Seq<char>),
    Rename(Seq<char>, Seq<char>),
    Clear(Seq<char>),
    Write(Seq<char>, Seq<char>),
    Thumbnails(Seq<char>, Seq<char>),
    Split(Seq<char>, Seq<char>, Seq<char>, Seq<char>),
    ExtractAudio(Seq<char>, Seq<char>),
    Mute(Seq<char>, Seq<char>),
    Concat(Seq<char>, Seq<char>),
}

impl View for Step {
    type V = StepView;

    open spec fn view(&self) -> StepView {
        match self {
            Step::MakeDir(dir) => StepView::MakeDir(dir@),
            Step::Copy(from, to) => StepView::Copy(from@, to@),
            Step::RemoveFile(file) => StepView::RemoveFile(file@),
            Step::RemoveTree(dir) => StepView::RemoveTree(dir@),
            Step::Rename(from, to) => StepView::Rename(from@, to@),
            Step::Clear(dir) => StepView::Clear(dir@),
            Step::Write(file, text) => StepView::Write(file@, text@),
            Step::Thumbnails(video, dir) => StepView::Thumbnails(video@, dir@),
            Step::Split(source, offset, first, second) => StepView::Split(
                source@,
                offset@,
                first@,
                second@,
            ),
            Step::ExtractAudio(video, audio) => StepView::ExtractAudio(video@, audio@),
            Step::Mute(video, muted) => StepView::Mute(video@, muted@),
            Step::Concat(list, output) => StepView::Concat(list@, output@),
        }
    }
}

/// The steps of a list as values.
pub open spec fn steps_of(steps: Seq<Step>) -> Seq<StepView> {
    steps.map_values(|s: Step| s@)
}

/// The call of the engine that a step asks for; none for a step on files
/// alone.
pub open spec fn call_of(step: StepView) -> Option<InvocationView> {
    match step {
        StepView::Thumbnails(video, dir) => Some(thumbnails_call(video, dir)),
        StepView::Split(source, offset, first, second) => Some(
            split_call(source, offset, first, second),
        ),
        StepView::ExtractAudio(video, audio) => Some(extract_audio_call(video, audio)),
        StepView::Mute(video, muted) => Some(mute_call(video, muted)),
        StepView::Concat(list, output) => Some(concat_call(list, output)),
        _ => None,
    }
}

/// Whether `failure` is the failure of `step`, of which `said` is what there
/// is to say: a split that failed carries those words, any other work of the
/// engine is a failed transcode, and a step on files is a filesystem error.
pub open spec fn is_failure_of(step: StepView, said: Seq<char>, failure: Failure) -> bool {
    match step {
        StepView::Split(_, _, _, _) => failure matches Failure::SplitFailed(text) && text@ == said,
        StepView::Thumbnails(_, _) | StepView::ExtractAudio(_, _) | StepView::Mute(_, _)
        | StepView::Concat(_, _) => failure is TranscodeFailed,
        _ => failure is FilesystemError,
    }
}

impl Step {
    /// The call of the engine that this step asks for, if it is the
    /// engine's work.
    pub fn command(&self) -> (call: Option<Invocation>)
        ensures
            match call {
                Some(c) => call_of(self@) == Some(c@),
                None => call_of(self@).is_none(),
            },
    {
        match self {
            Step::Thumbnails(video, dir) => Some(thumbnails_command(video.as_str(), dir.as_str())),
            Step::Split(source, offset, first, second) => Some(
                split_command(source.as_str(), offset.as_str(), first.as_str(), second.as_str()),
            ),
            Step::ExtractAudio(video, audio) => Some(
                extract_audio_command(video.as_str(), audio.as_str()),
            ),
            Step::Mute(video, muted) => Some(mute_command(video.as_str(), muted.as_str())),
            Step::Concat(list, output) => Some(concat_command(list.as_str(), output.as_str())),
            _ => None,
        }
    }

    /// The failure to report where the step did not succeed; `said` is what
    /// there is to say of it.
    pub fn failure(&self, said: &str) -> (failure: Failure)
        ensures
            is_failure_of(self@, said@, failure),
    {
        match self {
            Step::Split(_, _, _, _) => Failure::SplitFailed(String::from_str(said)),
            Step::Thumbnails(_, _) => Failure::TranscodeFailed,
            Step::ExtractAudio(_, _) => Failure::TranscodeFailed,
            Step::Mute(_, _) => Failure::TranscodeFailed,
            Step::Concat(_, _) => Failure::TranscodeFailed,
            _ => Failure::FilesystemError,
        }
    }

    /// How the step went, from the run of the engine that it asked for: it
    /// succeeded where the run did, and else failed with what the run has to
    /// say.
    pub fn outcome(&self, run: &Run) -> (result: Result<(), Failure>)
        ensures
            result is Ok <==> succeeded(*run),
            result matches Err(e) ==> is_failure_of(self@, diagnostic(*run), e),
    {
        match self {
            Step::Split(_, _, _, _) => split_result(run),
            Step::Thumbnails(_, _) => transcode_result(run),
            Step::ExtractAudio(_, _) => transcode_result(run),
            Step::Mute(_, _) => transcode_result(run),
            Step::Concat(_, _) => transcode_result(run),
            _ => {
                if run.succeeded() {
                    Ok(())
                } else {
                    Err(Failure::FilesystemError)
                }
            },
        }
    }
}

/// A step of a command, with what its failure means for the command.
#[derive(Clone, Debug, PartialEq, Eq)]
pub struct Task {
    pub step: Step,
    /// Whether the command ends where this step fails. A step that is not
    /// required is tried, and the command goes on whatever comes of it.
    pub required: bool,
}

/// A task as a value.
pub struct TaskView {
    pub step: StepView,
    pub required: bool,
}

impl View for Task {
    type V = TaskView;

    open spec fn view(&self) -> TaskView {
        TaskView { step: self.step@, required: self.required }
    }
}

/// The tasks of a list as values.
pub open spec fn tasks_of(tasks: Seq<Task>) -> Seq<TaskView> {
    tasks.map_values(|t: Task| t@)
}

/// A step without which the command cannot go on.
pub open spec fn required(step: StepView) -> TaskView {
    TaskView { step, required: true }
}

/// A step that is tried.
pub open spec fn attempted(step: StepView) -> TaskView {
    TaskView { step, required: false }
}

impl Task {
    /// A step without which the command cannot go on.
    pub fn required(step: Step) -> (task: Task)
        ensures
            task@ == required(step@),
    {
        Task { step, required: true }
    }

    /// A step that is tried.
    pub fn attempted(step: Step) -> (task: Task)
        ensures
            task@ == attempted(step@),
    {
        Task { step, required: false }
    }

    /// Settles what the outcome of the step means for the command: the
    /// command fails with the step's failure where the step was required,
    /// and goes on in every other case.
    pub fn settle(&self, outcome: Result<(), Failure>) -> (verdict: Result<(), Failure>)
        ensures
            verdict is Err <==> self.required && outcome is Err,
            verdict is Err ==> verdict == outcome,
    {
        if self.required {
            outcome
        } else {
            Ok(())
        }
    }
}

/// The steps of a list of tasks.
pub open spec fn steps_in(tasks: Seq<TaskView>) -> Seq<StepView> {
    tasks.map_values(|t: TaskView| t.step)
}

/// The files and directories that exist, by their paths.
pub struct Tree {
    pub files: Set<Seq<char>>,
    pub dirs: Set<Seq<char>>,
}

/// Whether `path` names something below the directory `dir`.
pub open spec fn below(path: Seq<char>, dir: Seq<char>) -> bool {
    let prefix = joined(dir, Seq::empty());
    prefix.len() < path.len() && path.subrange(0, prefix.len() as int) == prefix
}

/// The tree after a step that succeeded.
///
/// Of a directory that is made, only the directory itself is recorded, not
/// those above it. A directory is cleared with success only where it holds
/// files alone, and then no file is left below it. Thumbnails are not
/// recorded one by one: they come and go with their directory.
pub open spec fn apply(step: StepView, tree: Tree) -> Tree {
    match step {
        StepView::MakeDir(dir) => Tree { dirs: tree.dirs.insert(dir), ..tree },
        StepView::Copy(_, to) => Tree { files: tree.files.insert(to), ..tree },
        StepView::RemoveFile(file) => Tree { files: tree.files.remove(file), ..tree },
        StepView::RemoveTree(dir) => Tree {
            files: tree.files.filter(|f: Seq<char>| !below(f, dir)),
            dirs: tree.dirs.filter(|d: Seq<char>| d != dir && !below(d, dir)),
        },
        StepView::Rename(from, to) => Tree { files: tree.files.remove(from).insert(to), ..tree },
        StepView::Clear(dir) => Tree {
            files: tree.files.filter(|f: Seq<char>| !below(f, dir)),
            ..tree
        },
        StepView::Write(file, _) => Tree { files: tree.files.insert(file), ..tree },
        StepView::Thumbnails(_, _) => tree,
        StepView::Split(_, _, first, second) => Tree {
            files: tree.files.insert(first).insert(second),
            ..tree
        },
        StepView::ExtractAudio(_, audio) => Tree { files: tree.files.insert(audio), ..tree },
        StepView::Mute(_, muted) => Tree { files: tree.files.insert(muted), ..tree },
        StepView::Concat(_, output) => Tree { files: tree.files.insert(output), ..tree },
    }
}

/// The tree after each of the steps has succeeded, in order.
pub open spec fn run(steps: Seq<StepView>, tree: Tree) -> Tree
    decreases steps.len(),
{
    if steps.len() == 0 {
        tree
    } else {
        apply(steps.last(), run(steps.drop_last(), tree))
    }
}

/// The tree after the tasks have been carried out, where `went` tells of each
/// step in turn whether it succeeded. A step that fails changes nothing. A
/// required step that fails ends the command: no later step is taken. The
/// command also ends where `went` does.
pub open spec fn carried_out(tasks: Seq<TaskView>, went: Seq<bool>, tree: Tree) -> Tree
    decreases tasks.len(),
{
    if tasks.len() == 0 || went.len() == 0 {
        tree
    } else if went[0] {
        carried_out(tasks.drop_first(), went.drop_first(), apply(tasks[0].step, tree))
    } else if tasks[0].required {
        tree
    } else {
        carried_out(tasks.drop_first(), went.drop_first(), tree)
    }
}

/// Whether the command came to its end: no required step failed.
pub open spec fn completed(tasks: Seq<TaskView>, went: Seq<bool>) -> bool
    decreases tasks.len(),
{
    if tasks.len() == 0 || went.len() == 0 {
        true
    } else if !went[0] && tasks[0].required {
        false
    } else {
        completed(tasks.drop_first(), went.drop_first())
    }
}

/// Running steps is taking the first and running the rest.
pub proof fn lemma_run_first(steps: Seq<StepView>, tree: Tree)
    requires
        steps.len() > 0,
    ensures
        run(steps, tree) == run(steps.drop_first(), apply(steps[0], tree)),
    decreases steps.len(),
{
    let first = apply(steps[0], tree);
    let nothing = Seq::<StepView>::empty();
    if steps.len() == 1 {
        assert(steps.drop_last() =~= nothing);
        assert(steps.drop_first() =~= nothing);
        assert(run(nothing, tree) == tree);
        assert(run(nothing, first) == first);
    } else {
        let front = steps.drop_last();
        let back = steps.drop_first();
        lemma_run_first(front, tree);
        assert(front.drop_first() =~= back.drop_last());
        assert(back.last() == steps.last());
        assert(front[0] == steps[0]);
        assert(run(front, tree) == run(back.drop_last(), first));
        assert(run(back, first) == apply(back.last(), run(back.drop_last(), first)));
    }
}

/// Where every step succeeds, the command comes to its end and leaves what
/// running its steps leaves.
pub proof fn lemma_all_went_well(tasks: Seq<TaskView>, went: Seq<bool>, tree: Tree)
    requires
        went.len() == tasks.len(),
        forall|i: int| 0 <= i < went.len() ==> went[i],
    ensures
        carried_out(tasks, went, tree) == run(steps_in(tasks), tree),
        completed(tasks, went),
    decreases tasks.len(),
{
    if tasks.len() > 0 {
        let rest = tasks.drop_first();
        lemma_all_went_well(rest, went.drop_first(), apply(tasks[0].step, tree));
        lemma_run_first(steps_in(tasks), tree);
        assert(steps_in(tasks).drop_first() =~= steps_in(rest));
    } else {
        assert(steps_in(tasks) =~= Seq::<StepView>::empty());
    }
}

/// Making a directory that exists changes nothing, so making one twice is
/// making it once.
pub proof fn lemma_make_dir_idempotent(dir: Seq<char>, tree: Tree)
    ensures
        tree.dirs.contains(dir) ==> apply(StepView::MakeDir(dir), tree) == tree,
        apply(StepView::MakeDir(dir), apply(StepView::MakeDir(dir), tree)) == apply(
            StepView::MakeDir(dir),
            tree,
        ),
        apply(StepView::MakeDir(dir), tree).files == tree.files,
{
    let once = apply(StepView::MakeDir(dir), tree);
    let twice = apply(StepView::MakeDir(dir), once);
    assert(twice.dirs =~= once.dirs);
    if tree.dirs.contains(dir) {
        assert(once.dirs =~= tree.dirs);
    }
}

/// An entry of a directory lies below it.
pub proof fn lemma_entry_below(dir: Seq<char>, name: Seq<char>)
    requires
        name.len() > 0,
    ensures
        below(joined(dir, name), dir),
{
    let prefix = joined(dir, Seq::empty());
    assert(joined(dir, name) =~= prefix + name);
    assert((prefix + name).subrange(0, prefix.len() as int) =~= prefix);
}

} // verus!
