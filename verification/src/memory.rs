//! A tree of files and directories kept in memory, on which the steps of a
//! command can be run without touching a disk.

use vstd::prelude::*;
use vstd::string::StringExecFns;
use crate::paths::join;
use crate::paths::joined;
use crate::steps::apply;
use crate::steps::below;
use crate::steps::carried_out;
use crate::steps::completed;
use crate::steps::run;
use crate::steps::steps_in;
use crate::steps::tasks_of;
use crate::steps::Step;
use crate::steps::StepView;
use crate::steps::Task;
use crate::steps::Tree;
use crate::text::chars_of;

verus! {

/// The paths that a list names.
pub open spec fn named(list: Seq<String>) -> Set<Seq<char>> {
    Set::new(|p: Seq<char>| exists|i: int| 0 <= i < list.len() && (#[trigger] list[i])@ == p)
}

/// The files and directories that exist, each held once or more by its
/// path. Only the paths count, not how often or in what order they are
/// held.
#[derive(Clone, Debug)]
pub struct MemoryTree {
    pub files: Vec<String>,
    pub dirs: Vec<String>,
}

impl View for MemoryTree {
    type V = Tree;

    open spec fn view(&self) -> Tree {
        Tree { files: named(self.files@), dirs: named(self.dirs@) }
    }
}

/// Whether `path` names something below the directory `dir`.
pub fn is_below(path: &str, dir: &str) -> (yes: bool)
    ensures
        yes == below(path@, dir@),
{
    let stem = join(dir, "");
    proof {
        reveal_strlit("");
        assert(""@ =~= Seq::<char>::empty());
    }
    let prefix = chars_of(stem.as_str());
    let whole = chars_of(path);
    if prefix.len() >= whole.len() {
        return false;
    }
    let mut i: usize = 0;
    while i < prefix.len()
        invariant
            i <= prefix@.len() < whole@.len(),
            prefix@ == joined(dir@, Seq::<char>::empty()),
            whole@ == path@,
            forall|j: int| 0 <= j < i ==> prefix@[j] == whole@[j],
        decreases prefix@.len() - i,
    {
        if prefix[i] != whole[i] {
            assert(whole@.subrange(0, prefix@.len() as int)[i as int] != prefix@[i as int]);
            return false;
        }
        i = i + 1;
    }
    assert(whole@.subrange(0, prefix@.len() as int) =~= prefix@);
    true
}

fn holds(list: &Vec<String>, path: &str) -> (yes: bool)
    ensures
        yes == named(list@).contains(path@),
{
    let wanted = String::from_str(path);
    let mut i: usize = 0;
    while i < list.len()
        invariant
            i <= list@.len(),
            wanted@ == path@,
            forall|j: int| 0 <= j < i ==> (#[trigger] list@[j])@ != path@,
        decreases list@.len() - i,
    {
        if list[i] == wanted {
            return true;
        }
        i = i + 1;
    }
    false
}

fn with(list: &mut Vec<String>, path: &str)
    ensures
        named(final(list)@) == named(old(list)@).insert(path@),
{
    let ghost before = list@;
    list.push(String::from_str(path));
    proof {
        let after = list@;
        assert forall|p: Seq<char>| named(after).contains(p) <==> named(before).insert(
            path@,
        ).contains(p) by {
            if named(after).contains(p) {
                let i = choose|i: int| 0 <= i < after.len() && (#[trigger] after[i])@ == p;
                if i < before.len() {
                    assert(before[i]@ == p);
                }
            }
            if named(before).contains(p) {
                let i = choose|i: int| 0 <= i < before.len() && (#[trigger] before[i])@ == p;
                assert(after[i]@ == p);
            }
            if p == path@ {
                assert(after[before.len() as int]@ == p);
            }
        }
        assert(named(after) =~= named(before).insert(path@));
    }
}

/// What stays of a list when a path, or all that lies below a directory, or
/// both, are taken out of it.
spec fn stays(p: Seq<char>, gone: Seq<char>, exact: bool, under: bool) -> bool {
    !(exact && p == gone) && !(under && below(p, gone))
}

fn without(list: &Vec<String>, gone: &str, exact: bool, under: bool) -> (kept: Vec<String>)
    ensures
        named(kept@) == named(list@).filter(|p: Seq<char>| stays(p, gone@, exact, under)),
{
    let wanted = String::from_str(gone);
    let mut kept: Vec<String> = Vec::new();
    let mut i: usize = 0;
    while i < list.len()
        invariant
            i <= list@.len(),
            wanted@ == gone@,
            forall|k: int|
                0 <= k < kept@.len() ==> stays((#[trigger] kept@[k])@, gone@, exact, under)
                    && named(list@).contains(kept@[k]@),
            forall|j: int|
                0 <= j < i && stays((#[trigger] list@[j])@, gone@, exact, under) ==> named(
                    kept@,
                ).contains(list@[j]@),
        decreases list@.len() - i,
    {
        let ghost kept_before = kept@;
        let out = (exact && list[i] == wanted) || (under && is_below(list[i].as_str(), gone));
        if !out {
            kept.push(list[i].clone());
            assert(kept@[kept_before.len() as int]@ == list@[i as int]@);
        }
        proof {
            assert forall|j: int|
                0 <= j < i + 1 && stays((#[trigger] list@[j])@, gone@, exact, under) implies named(
                kept@,
            ).contains(list@[j]@) by {
                if j < i {
                    assert(named(kept_before).contains(list@[j]@));
                    let k = choose|k: int|
                        0 <= k < kept_before.len() && (#[trigger] kept_before[k])@ == list@[j]@;
                    assert(kept@[k]@ == list@[j]@);
                } else {
                    assert(kept@[kept_before.len() as int]@ == list@[j]@);
                }
            }
        }
        i = i + 1;
    }
    proof {
        let want = named(list@).filter(|p: Seq<char>| stays(p, gone@, exact, under));
        assert forall|p: Seq<char>| named(kept@).contains(p) <==> want.contains(p) by {
            if named(kept@).contains(p) {
                let k = choose|k: int| 0 <= k < kept@.len() && (#[trigger] kept@[k])@ == p;
                assert(stays(kept@[k]@, gone@, exact, under));
            }
            if want.contains(p) {
                let j = choose|j: int| 0 <= j < list@.len() && (#[trigger] list@[j])@ == p;
                assert(stays(list@[j]@, gone@, exact, under));
            }
        }
        assert(named(kept@) =~= want);
    }
    kept
}

impl MemoryTree {
    /// A tree that holds nothing.
    pub fn new() -> (tree: MemoryTree)
        ensures
            tree@.files == Set::<Seq<char>>::empty(),
            tree@.dirs == Set::<Seq<char>>::empty(),
    {
        let tree = MemoryTree { files: Vec::new(), dirs: Vec::new() };
        assert(tree@.files =~= Set::<Seq<char>>::empty());
        assert(tree@.dirs =~= Set::<Seq<char>>::empty());
        tree
    }

    /// Whether the file `path` exists.
    pub fn has_file(&self, path: &str) -> (yes: bool)
        ensures
            yes == self@.files.contains(path@),
    {
        holds(&self.files, path)
    }

    /// Whether the directory `path` exists.
    pub fn has_dir(&self, path: &str) -> (yes: bool)
        ensures
            yes == self@.dirs.contains(path@),
    {
        holds(&self.dirs, path)
    }

    /// The files that lie below the directory `dir`.
    pub fn files_below(&self, dir: &str) -> (found: Vec<String>)
        ensures
            named(found@) == self@.files.filter(|p: Seq<char>| below(p, dir@)),
    {
        let mut found: Vec<String> = Vec::new();
        let mut i: usize = 0;
        while i < self.files.len()
            invariant
                i <= self.files@.len(),
                forall|k: int|
                    0 <= k < found@.len() ==> below((#[trigger] found@[k])@, dir@) && named(
                        self.files@,
                    ).contains(found@[k]@),
                forall|j: int|
                    0 <= j < i && below((#[trigger] self.files@[j])@, dir@) ==> named(
                        found@,
                    ).contains(self.files@[j]@),
            decreases self.files@.len() - i,
        {
            let ghost found_before = found@;
            if is_below(self.files[i].as_str(), dir) {
                found.push(self.files[i].clone());
                assert(found@[found_before.len() as int]@ == self.files@[i as int]@);
            }
            proof {
                assert forall|j: int|
                    0 <= j < i + 1 && below((#[trigger] self.files@[j])@, dir@) implies named(
                    found@,
                ).contains(self.files@[j]@) by {
                    if j < i {
                        let k = choose|k: int|
                            0 <= k < found_before.len() && (#[trigger] found_before[k])@
                                == self.files@[j]@;
                        assert(found@[k]@ == self.files@[j]@);
                    } else {
                        assert(found@[found_before.len() as int]@ == self.files@[j]@);
                    }
                }
            }
            i = i + 1;
        }
        proof {
            let want = self@.files.filter(|p: Seq<char>| below(p, dir@));
            assert forall|p: Seq<char>| named(found@).contains(p) <==> want.contains(p) by {
                if named(found@).contains(p) {
                    let k = choose|k: int| 0 <= k < found@.len() && (#[trigger] found@[k])@ == p;
                    assert(below(found@[k]@, dir@));
                }
                if want.contains(p) {
                    let j = choose|j: int|
                        0 <= j < self.files@.len() && (#[trigger] self.files@[j])@ == p;
                    assert(below(self.files@[j]@, dir@));
                }
            }
            assert(named(found@) =~= want);
        }
        found
    }

    /// Takes one step, which succeeds.
    pub fn apply(&mut self, step: &Step)
        ensures
            final(self)@ == apply(step@, old(self)@),
    {
        match step {
            Step::MakeDir(dir) => {
                with(&mut self.dirs, dir.as_str());
            },
            Step::Copy(_, to) => {
                with(&mut self.files, to.as_str());
            },
            Step::RemoveFile(file) => {
                self.files = without(&self.files, file.as_str(), true, false);
                assert(self@.files =~= old(self)@.files.remove(file@));
            },
            Step::RemoveTree(dir) => {
                self.files = without(&self.files, dir.as_str(), false, true);
                self.dirs = without(&self.dirs, dir.as_str(), true, true);
                assert(self@.files =~= apply(step@, old(self)@).files);
                assert(self@.dirs =~= apply(step@, old(self)@).dirs);
            },
            Step::Rename(from, to) => {
                self.files = without(&self.files, from.as_str(), true, false);
                with(&mut self.files, to.as_str());
                assert(self@.files =~= old(self)@.files.remove(from@).insert(to@));
            },
            Step::Clear(dir) => {
                self.files = without(&self.files, dir.as_str(), false, true);
                assert(self@.files =~= apply(step@, old(self)@).files);
            },
            Step::Write(file, _) => {
                with(&mut self.files, file.as_str());
            },
            Step::Thumbnails(_, _) => {
            },
            Step::Split(_, _, first, second) => {
                with(&mut self.files, first.as_str());
                with(&mut self.files, second.as_str());
            },
            Step::ExtractAudio(_, audio) => {
                with(&mut self.files, audio.as_str());
            },
            Step::Mute(_, muted) => {
                with(&mut self.files, muted.as_str());
            },
            Step::Concat(_, output) => {
                with(&mut self.files, output.as_str());
            },
        }
    }

    /// Takes each step of the tasks in order; all of them succeed.
    pub fn run(&mut self, tasks: &Vec<Task>)
        ensures
            final(self)@ == run(steps_in(tasks_of(tasks@)), old(self)@),
    {
        let ghost steps = steps_in(tasks_of(tasks@));
        let mut i: usize = 0;
        assert(steps.subrange(0, 0) =~= Seq::<StepView>::empty());
        while i < tasks.len()
            invariant
                i <= tasks@.len(),
                steps == steps_in(tasks_of(tasks@)),
                self@ == run(steps.subrange(0, i as int), old(self)@),
            decreases tasks@.len() - i,
        {
            let ghost upto = steps.subrange(0, i + 1);
            assert(upto.drop_last() =~= steps.subrange(0, i as int));
            assert(upto.last() == tasks@[i as int].step@);
            self.apply(&tasks[i].step);
            i = i + 1;
        }
        assert(steps.subrange(0, tasks@.len() as int) =~= steps);
    }

    /// Carries out the tasks in order, where `went` tells of each step in
    /// turn whether it succeeds. A step that fails changes nothing, and a
    /// required step that fails ends the command. Tells whether the command
    /// came to its end.
    pub fn carry_out(&mut self, tasks: &Vec<Task>, went: &Vec<bool>) -> (done: bool)
        ensures
            final(self)@ == carried_out(tasks_of(tasks@), went@, old(self)@),
            done == completed(tasks_of(tasks@), went@),
    {
        let ghost all = tasks_of(tasks@);
        let mut i: usize = 0;
        assert(all.subrange(0, all.len() as int) =~= all);
        assert(went@.subrange(0, went@.len() as int) =~= went@);
        while i < tasks.len() && i < went.len()
            invariant
                i <= tasks@.len(),
                i <= went@.len(),
                all == tasks_of(tasks@),
                carried_out(all, went@, old(self)@) == carried_out(
                    all.subrange(i as int, all.len() as int),
                    went@.subrange(i as int, went@.len() as int),
                    self@,
                ),
                completed(all, went@) == completed(
                    all.subrange(i as int, all.len() as int),
                    went@.subrange(i as int, went@.len() as int),
                ),
            decreases tasks@.len() - i,
        {
            let ghost rest = all.subrange(i as int, all.len() as int);
            let ghost luck = went@.subrange(i as int, went@.len() as int);
            assert(rest[0] == tasks@[i as int]@);
            assert(luck[0] == went@[i as int]);
            assert(rest.drop_first() =~= all.subrange(i + 1, all.len() as int));
            assert(luck.drop_first() =~= went@.subrange(i + 1, went@.len() as int));
            if went[i] {
                self.apply(&tasks[i].step);
            } else if tasks[i].required {
                return false;
            }
            i = i + 1;
        }
        true
    }
}

} // verus!
