//! Where a workspace keeps its files: the three areas under the storage root,
//! and the names of the files in them.

use vstd::prelude::*;
use vstd::string::StrSliceExecFns;
use vstd::string::StringExecFns;
use crate::text::decimal;
use crate::text::decimal_digits;
use crate::text::is_digit;
use crate::text::lemma_decimal_injective;
use crate::text::lemma_decimal_round_trip;
use crate::text::lemma_tail_start;
use crate::text::push_char;
use crate::text::tail_start;

verus! {

/// One of the three areas of a workspace.
#[derive(Clone, Copy, Debug, PartialEq, Eq, Structural)]
pub enum Area {
    /// Source files as they were brought in.
    Import,
    /// The clips on the track, their thumbnails and detached audio.
    VideoTrack,
    /// The result of the last synthesis.
    FinalVideo,
}

/// The directory name of an area.
pub open spec fn area_tag(area: Area) -> Seq<char> {
    match area {
        Area::Import => "import"@,
        Area::VideoTrack => "videoTrack"@,
        Area::FinalVideo => "final_video"@,
    }
}

/// Whether `c` separates the parts of a path.
pub open spec fn is_separator(c: char) -> bool {
    c == '/' || c == '\\'
}

/// The path of `name` below `base`: the two with one `/` between them, which
/// is left out where `base` is empty or already ends in a separator.
pub open spec fn joined(base: Seq<char>, name: Seq<char>) -> Seq<char> {
    if base.len() == 0 || is_separator(base.last()) {
        base + name
    } else {
        base.push('/') + name
    }
}

/// The directory of an area of a workspace below the storage root.
pub open spec fn area_path(root: Seq<char>, workspace: Seq<char>, area: Area) -> Seq<char> {
    joined(joined(root, workspace), area_tag(area))
}

/// The path of the entry `name` in an area of a workspace.
pub open spec fn entry_path(
    root: Seq<char>,
    workspace: Seq<char>,
    area: Area,
    name: Seq<char>,
) -> Seq<char> {
    joined(area_path(root, workspace, area), name)
}

/// The part of `s` behind the last `c`: all of `s` where it holds no `c`.
pub open spec fn after_last(s: Seq<char>, c: char) -> Seq<char> {
    s.subrange(tail_start(s, c), s.len() as int)
}

/// Whether `s` holds no separator, so that it can name an entry of a
/// directory.
pub open spec fn is_plain_name(s: Seq<char>) -> bool {
    forall|i: int| 0 <= i < s.len() ==> !is_separator(#[trigger] s[i])
}

/// Where the file name in `path` begins: behind its last separator, or at 0
/// where it holds none.
pub open spec fn file_start(path: Seq<char>) -> int
    decreases path.len(),
{
    if path.len() == 0 {
        0
    } else if is_separator(path.last()) {
        path.len() as int
    } else {
        file_start(path.drop_last())
    }
}

/// The file name in `path`: what stands behind its last separator, be that a
/// slash or a backslash.
pub open spec fn file_part(path: Seq<char>) -> Seq<char> {
    path.subrange(file_start(path), path.len() as int)
}

/// The extension of the file that a path names: what stands behind the last
/// `.` of the file name, or the whole file name where it holds no `.`.
pub open spec fn extension(path: Seq<char>) -> Seq<char> {
    after_last(file_part(path), '.')
}

/// The name of a clip's video file.
pub open spec fn clip_file(stem: Seq<char>) -> Seq<char> {
    stem + ".mp4"@
}

/// The name of the audio file detached from a clip.
pub open spec fn audio_file(stem: Seq<char>) -> Seq<char> {
    stem + ".mp3"@
}

/// The name under which a source file is kept in the import area.
pub open spec fn imported_file(millis: nat, extension: Seq<char>) -> Seq<char> {
    "imported_"@ + decimal_digits(millis) + seq!['.'] + extension
}

/// The name of the marker whose presence says that a synthesis is complete.
pub open spec fn sentinel_file() -> Seq<char> {
    "ok.txt"@
}

/// The directory name of an area.
pub fn area_name(area: Area) -> (name: String)
    ensures
        name@ == area_tag(area),
{
    match area {
        Area::Import => String::from_str("import"),
        Area::VideoTrack => String::from_str("videoTrack"),
        Area::FinalVideo => String::from_str("final_video"),
    }
}

/// The path of `name` below `base`.
pub fn join(base: &str, name: &str) -> (path: String)
    ensures
        path@ == joined(base@, name@),
{
    let mut path = String::from_str(base);
    let n: usize = base.unicode_len();
    if n > 0 {
        let last = base.get_char(n - 1);
        if !(last == '/' || last == '\\') {
            push_char(&mut path, '/');
        }
    }
    path.append(name);
    path
}

/// The part of `s` behind the last `c`.
pub fn tail_after(s: &str, c: char) -> (tail: String)
    ensures
        tail@ == after_last(s@, c),
{
    let n: usize = s.unicode_len();
    let mut start: usize = 0;
    let mut i: usize = 0;
    while i < n
        invariant
            i <= n,
            n == s@.len(),
            start == tail_start(s@.subrange(0, i as int), c),
            start <= i,
        decreases n - i,
    {
        let ghost upto = s@.subrange(0, i + 1);
        assert(upto.drop_last() =~= s@.subrange(0, i as int));
        assert(upto.last() == s@[i as int]);
        if s.get_char(i) == c {
            start = i + 1;
        }
        i = i + 1;
    }
    assert(s@.subrange(0, n as int) =~= s@);
    String::from_str(s.substring_char(start, n))
}

/// The file name lies within the path, holds no separator, and a separator
/// stands just before it unless the path holds none at all.
pub proof fn lemma_file_part(path: Seq<char>)
    ensures
        0 <= file_start(path) <= path.len(),
        is_plain_name(file_part(path)),
        file_start(path) > 0 ==> is_separator(path[file_start(path) - 1]),
        is_plain_name(extension(path)),
    decreases path.len(),
{
    if path.len() > 0 && !is_separator(path.last()) {
        let front = path.drop_last();
        lemma_file_part(front);
        assert forall|i: int| 0 <= i < file_part(path).len() implies !is_separator(
            #[trigger] file_part(path)[i],
        ) by {
            if i < file_part(front).len() {
                assert(file_part(path)[i] == file_part(front)[i]);
            }
        }
        assert(file_start(path) > 0 ==> path[file_start(path) - 1] == front[file_start(front)
            - 1]);
    }
    let file = file_part(path);
    lemma_tail_start(file, '.');
    assert forall|i: int| 0 <= i < extension(path).len() implies !is_separator(
        #[trigger] extension(path)[i],
    ) by {
        assert(extension(path)[i] == file[tail_start(file, '.') + i]);
    }
}

/// The file name in `path`.
pub fn file_name_of(path: &str) -> (file: String)
    ensures
        file@ == file_part(path@),
        is_plain_name(file@),
{
    let n: usize = path.unicode_len();
    let mut start: usize = 0;
    let mut i: usize = 0;
    while i < n
        invariant
            i <= n,
            n == path@.len(),
            start == file_start(path@.subrange(0, i as int)),
            start <= i,
        decreases n - i,
    {
        let ghost upto = path@.subrange(0, i + 1);
        assert(upto.drop_last() =~= path@.subrange(0, i as int));
        assert(upto.last() == path@[i as int]);
        let c = path.get_char(i);
        if c == '/' || c == '\\' {
            start = i + 1;
        }
        i = i + 1;
    }
    assert(path@.subrange(0, n as int) =~= path@);
    proof {
        lemma_file_part(path@);
    }
    String::from_str(path.substring_char(start, n))
}

/// The extension of the file that `path` names. It holds no separator,
/// however the path is written.
pub fn extension_of(path: &str) -> (ext: String)
    ensures
        ext@ == extension(path@),
        is_plain_name(ext@),
{
    let file = file_name_of(path);
    proof {
        lemma_file_part(path@);
    }
    tail_after(file.as_str(), '.')
}

/// The name of the video file of the clip `stem`.
pub fn clip_file_name(stem: &str) -> (name: String)
    ensures
        name@ == clip_file(stem@),
{
    String::from_str(stem).concat(".mp4")
}

/// The name of the audio file detached from a clip, from the stem chosen for
/// it.
pub fn audio_file_name(stem: &str) -> (name: String)
    ensures
        name@ == audio_file(stem@),
{
    String::from_str(stem).concat(".mp3")
}

/// The name of an imported file holds no separator where its extension holds
/// none: it names an entry of the import area itself.
pub proof fn lemma_imported_file_is_plain(millis: nat, extension: Seq<char>)
    requires
        is_plain_name(extension),
    ensures
        is_plain_name(imported_file(millis, extension)),
        imported_file(millis, extension).len() > 0,
{
    reveal_strlit("imported_");
    lemma_decimal_round_trip(millis);
    let head = "imported_"@;
    let digits = decimal_digits(millis);
    let name = imported_file(millis, extension);
    assert forall|i: int| 0 <= i < name.len() implies !is_separator(#[trigger] name[i]) by {
        if i < head.len() {
            assert(name[i] == head[i]);
        } else if i < head.len() + digits.len() {
            assert(name[i] == digits[i - head.len()]);
            assert(is_digit(digits[i - head.len()]));
        } else if i == head.len() + digits.len() {
            assert(name[i] == '.');
        } else {
            assert(name[i] == extension[i - head.len() - digits.len() - 1]);
        }
    }
}

/// The name under which a source file brought in at `millis` is kept.
pub fn imported_file_name(millis: u128, extension: &str) -> (name: String)
    ensures
        name@ == imported_file(millis as nat, extension@),
        is_plain_name(extension@) ==> is_plain_name(name@),
{
    let mut name = String::from_str("imported_");
    let stamp = decimal(millis);
    name.append(stamp.as_str());
    push_char(&mut name, '.');
    name.append(extension);
    assert(name@ =~= imported_file(millis as nat, extension@));
    proof {
        if is_plain_name(extension@) {
            lemma_imported_file_is_plain(millis as nat, extension@);
        }
    }
    name
}

/// The name of the completion marker.
pub fn sentinel_name() -> (name: String)
    ensures
        name@ == sentinel_file(),
{
    String::from_str("ok.txt")
}

/// The storage root below which every workspace lives.
#[derive(Clone, Debug)]
pub struct Storage {
    pub root: String,
}

impl Storage {
    /// A storage rooted at `root`.
    pub fn new(root: String) -> (storage: Storage)
        ensures
            storage.root@ == root@,
    {
        Storage { root }
    }

    /// The directory of a workspace.
    pub fn workspace_dir(&self, workspace: &str) -> (path: String)
        ensures
            path@ == joined(self.root@, workspace@),
    {
        join(self.root.as_str(), workspace)
    }

    /// The directory of one area of a workspace.
    pub fn area_dir(&self, workspace: &str, area: Area) -> (path: String)
        ensures
            path@ == area_path(self.root@, workspace@, area),
    {
        let dir = self.workspace_dir(workspace);
        let tag = area_name(area);
        join(dir.as_str(), tag.as_str())
    }

    /// The path of the entry `name` in one area of a workspace.
    pub fn entry(&self, workspace: &str, area: Area, name: &str) -> (path: String)
        ensures
            path@ == entry_path(self.root@, workspace@, area, name@),
    {
        let dir = self.area_dir(workspace, area);
        join(dir.as_str(), name)
    }
}

/// Different names give different entries of one directory.
pub proof fn lemma_joined_injective(base: Seq<char>, a: Seq<char>, b: Seq<char>)
    requires
        a != b,
    ensures
        joined(base, a) != joined(base, b),
{
    let prefix = joined(base, Seq::empty());
    assert(joined(base, a) =~= prefix + a);
    assert(joined(base, b) =~= prefix + b);
    if prefix + a == prefix + b {
        assert((prefix + a).len() == prefix.len() + a.len());
        assert((prefix + b).len() == prefix.len() + b.len());
        assert((prefix + a).subrange(prefix.len() as int, (prefix + a).len() as int) =~= a);
        assert((prefix + b).subrange(prefix.len() as int, (prefix + b).len() as int) =~= b);
    }
}

/// Clips named after different moments have different file names.
pub proof fn lemma_clip_names_differ(a: nat, b: nat)
    requires
        a != b,
    ensures
        decimal_digits(a) != decimal_digits(b),
        clip_file(decimal_digits(a)) != clip_file(decimal_digits(b)),
{
    if decimal_digits(a) == decimal_digits(b) {
        lemma_decimal_injective(a, b);
    }
    let x = decimal_digits(a);
    let y = decimal_digits(b);
    if clip_file(x) == clip_file(y) {
        let ext = ".mp4"@;
        assert(clip_file(x).len() == x.len() + ext.len());
        assert(clip_file(y).len() == y.len() + ext.len());
        assert(clip_file(x).subrange(0, x.len() as int) =~= x);
        assert(clip_file(y).subrange(0, y.len() as int) =~= y);
    }
}

} // verus!
