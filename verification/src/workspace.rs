//! Setting up a workspace and bringing source files into it.

use vstd::prelude::*;
use vstd::string::StringExecFns;
use crate::paths::extension;
use crate::paths::extension_of;
use crate::paths::imported_file;
use crate::paths::is_plain_name;
use crate::paths::imported_file_name;
use crate::paths::joined;
use crate::paths::entry_path;
use crate::paths::area_path;
use crate::paths::Area;
use crate::paths::Storage;
use crate::steps::apply;
use crate::steps::attempted;
use crate::steps::lemma_make_dir_idempotent;
use crate::steps::run;
use crate::steps::steps_in;
use crate::steps::Tree;
use crate::steps::required;
use crate::steps::tasks_of;
use crate::steps::Step;
use crate::steps::StepView;
use crate::steps::Task;
use crate::steps::TaskView;

verus! {

/// What creating the workspace `name` takes: its directory is made.
pub open spec fn create_workspace_tasks(root: Seq<char>, name: Seq<char>) -> Seq<TaskView> {
    seq![attempted(StepView::MakeDir(joined(root, name)))]
}

/// The steps that create the workspace `name`. They do the same to a
/// workspace that exists as to one that does not.
pub fn create_workspace(storage: &Storage, name: &str) -> (tasks: Vec<Task>)
    ensures
        tasks_of(tasks@) == create_workspace_tasks(storage.root@, name@),
{
    let mut tasks: Vec<Task> = Vec::new();
    tasks.push(Task::attempted(Step::MakeDir(storage.workspace_dir(name))));
    assert(tasks_of(tasks@) =~= create_workspace_tasks(storage.root@, name@));
    tasks
}

/// Creating a workspace twice leaves what creating it once leaves: the same
/// directories and the same files.
pub proof fn lemma_create_workspace_twice(root: Seq<char>, name: Seq<char>, before: Tree)
    ensures
        ({
            let steps = steps_in(create_workspace_tasks(root, name));
            let once = run(steps, before);
            &&& run(steps, once) == once
            &&& once.dirs.contains(joined(root, name))
            &&& once.files == before.files
        }),
{
    let dir = joined(root, name);
    let steps = steps_in(create_workspace_tasks(root, name));
    assert(steps =~= seq![StepView::MakeDir(dir)]);
    assert(steps.drop_last() =~= Seq::<StepView>::empty());
    reveal_with_fuel(run, 2);
    let once = run(steps, before);
    assert(once == apply(StepView::MakeDir(dir), before));
    assert(run(steps, once) == apply(StepView::MakeDir(dir), once));
    lemma_make_dir_idempotent(dir, before);
}

/// What bringing a source file into a workspace takes, and the name that
/// the file gets.
#[derive(Clone, Debug, PartialEq, Eq)]
pub struct Import {
    /// The name of the copy in the import area.
    pub name: String,
    /// The steps to take, in order.
    pub tasks: Vec<Task>,
}

/// The steps of an import: the import area is made, and the source is copied
/// into it under its new name.
pub open spec fn import_tasks(
    root: Seq<char>,
    source: Seq<char>,
    workspace: Seq<char>,
    millis: nat,
) -> Seq<TaskView> {
    seq![
        required(StepView::MakeDir(area_path(root, workspace, Area::Import))),
        attempted(
            StepView::Copy(
                source,
                entry_path(
                    root,
                    workspace,
                    Area::Import,
                    imported_file(millis, extension(source)),
                ),
            ),
        ),
    ]
}

/// Plans the import of the file at `source` into `workspace` at the moment
/// `millis`. The copy is named after the moment and keeps the extension of
/// the source's file name. Its name holds no separator, so that the copy
/// lies in the import area itself, whether the source path is written with
/// slashes or with backslashes.
pub fn import_source(storage: &Storage, source: &str, workspace: &str, millis: u128) -> (plan:
    Import)
    ensures
        plan.name@ == imported_file(millis as nat, extension(source@)),
        is_plain_name(plan.name@),
        tasks_of(plan.tasks@) == import_tasks(storage.root@, source@, workspace@, millis as nat),
{
    let kind = extension_of(source);
    let name = imported_file_name(millis, kind.as_str());
    let mut tasks: Vec<Task> = Vec::new();
    tasks.push(Task::required(Step::MakeDir(storage.area_dir(workspace, Area::Import))));
    tasks.push(
        Task::attempted(
            Step::Copy(
                String::from_str(source),
                storage.entry(workspace, Area::Import, name.as_str()),
            ),
        ),
    );
    assert(tasks_of(tasks@) =~= import_tasks(storage.root@, source@, workspace@, millis as nat));
    Import { name, tasks }
}

} // verus!
