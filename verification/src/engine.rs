//! What the transcoding engine is asked to do, and what its answers mean.
//!
//! The engine is a pair of command-line programs. This module writes their
//! argument lists and reads their output.

use vstd::prelude::*;
use vstd::string::StringExecFns;
use crate::paths::join;
use crate::paths::joined;
use crate::text::chars_of;
use crate::text::push_char;
use crate::text::texts;

verus! {

/// One of the engine's two programs.
#[derive(Clone, Copy, Debug, PartialEq, Eq, Structural)]
pub enum Program {
    /// The program that cuts, joins and converts.
    Transform,
    /// The program that reports on a file.
    Probe,
}

/// The file name of a program.
pub open spec fn program_file(program: Program) -> Seq<char> {
    match program {
        Program::Transform => "ffmpeg.exe"@,
        Program::Probe => "ffprobe.exe"@,
    }
}

/// Where a program lies below the application's resource directory.
pub open spec fn program_location(resources: Seq<char>, program: Program) -> Seq<char> {
    joined(
        joined(joined(joined(resources, "third_party"@), "ffmpeg"@), "bin"@),
        program_file(program),
    )
}

/// Where a program lies below the application's resource directory.
pub fn program_path(resources: &str, program: Program) -> (path: String)
    ensures
        path@ == program_location(resources@, program),
{
    let a = join(resources, "third_party");
    let b = join(a.as_str(), "ffmpeg");
    let c = join(b.as_str(), "bin");
    match program {
        Program::Transform => join(c.as_str(), "ffmpeg.exe"),
        Program::Probe => join(c.as_str(), "ffprobe.exe"),
    }
}

/// One call of the engine: the program and its arguments in order.
#[derive(Clone, Debug, PartialEq, Eq)]
pub struct Invocation {
    pub program: Program,
    pub args: Vec<String>,
}

/// An invocation as a value: the program and the text of each argument.
pub struct InvocationView {
    pub program: Program,
    pub args: Seq<Seq<char>>,
}

impl View for Invocation {
    type V = InvocationView;

    open spec fn view(&self) -> InvocationView {
        InvocationView { program: self.program, args: texts(self.args@) }
    }
}

/// Samples one frame every five seconds of `video` into numbered images in
/// `directory`.
pub open spec fn thumbnails_call(video: Seq<char>, directory: Seq<char>) -> InvocationView {
    InvocationView {
        program: Program::Transform,
        args: seq![
            "-i"@,
            video,
            "-vf"@,
            "fps=1/5"@,
            "-q:v"@,
            "2"@,
            directory + "\\%04d.png"@,
        ],
    }
}

/// Joins the files that the manifest `list` names into `output`, copying the
/// streams and replacing an `output` that exists.
pub open spec fn concat_call(list: Seq<char>, output: Seq<char>) -> InvocationView {
    InvocationView {
        program: Program::Transform,
        args: seq![
            "-y"@,
            "-f"@,
            "concat"@,
            "-safe"@,
            "0"@,
            "-i"@,
            list,
            "-c"@,
            "copy"@,
            output,
        ],
    }
}

/// Asks for the duration of `video`, printed as a bare number.
pub open spec fn duration_call(video: Seq<char>) -> InvocationView {
    InvocationView {
        program: Program::Probe,
        args: seq![
            "-v"@,
            "error"@,
            "-select_streams"@,
            "v:0"@,
            "-show_entries"@,
            "format=duration"@,
            "-of"@,
            "default=noprint_wrappers=1:nokey=1"@,
            video,
        ],
    }
}

/// Splits `source` at `offset` into `first`, which holds what lies before
/// the offset, and `second`, which holds the rest, copying the streams.
pub open spec fn split_call(
    source: Seq<char>,
    offset: Seq<char>,
    first: Seq<char>,
    second: Seq<char>,
) -> InvocationView {
    InvocationView {
        program: Program::Transform,
        args: seq![
            "-i"@,
            source,
            "-t"@,
            offset,
            "-c"@,
            "copy"@,
            first,
            "-ss"@,
            offset,
            "-c"@,
            "copy"@,
            second,
        ],
    }
}

/// Decodes the audio of `video` and writes nothing: the call succeeds only
/// where there is audio to decode.
pub open spec fn audio_test_call(video: Seq<char>) -> InvocationView {
    InvocationView {
        program: Program::Transform,
        args: seq!["-i"@, video, "-vn"@, "-f"@, "null"@, "-"@],
    }
}

/// Writes the audio of `video` to `audio`.
pub open spec fn extract_audio_call(video: Seq<char>, audio: Seq<char>) -> InvocationView {
    InvocationView {
        program: Program::Transform,
        args: seq!["-i"@, video, "-q:a"@, "0"@, "-map"@, "a"@, audio],
    }
}

/// Writes `video` without its audio to `muted`, copying the picture.
pub open spec fn mute_call(video: Seq<char>, muted: Seq<char>) -> InvocationView {
    InvocationView {
        program: Program::Transform,
        args: seq!["-i"@, video, "-an"@, "-c:v"@, "copy"@, muted],
    }
}

fn arg(text: &str) -> (owned: String)
    ensures
        owned@ == text@,
{
    String::from_str(text)
}

/// The call that fills `directory` with thumbnails of `video`.
pub fn thumbnails_command(video: &str, directory: &str) -> (call: Invocation)
    ensures
        call@ == thumbnails_call(video@, directory@),
{
    let mut args: Vec<String> = Vec::new();
    args.push(arg("-i"));
    args.push(arg(video));
    args.push(arg("-vf"));
    args.push(arg("fps=1/5"));
    args.push(arg("-q:v"));
    args.push(arg("2"));
    args.push(arg(directory).concat("\\%04d.png"));
    let call = Invocation { program: Program::Transform, args };
    assert(call@.args =~= thumbnails_call(video@, directory@).args);
    call
}

/// The call that joins the files named in the manifest `list` into `output`.
pub fn concat_command(list: &str, output: &str) -> (call: Invocation)
    ensures
        call@ == concat_call(list@, output@),
{
    let mut args: Vec<String> = Vec::new();
    args.push(arg("-y"));
    args.push(arg("-f"));
    args.push(arg("concat"));
    args.push(arg("-safe"));
    args.push(arg("0"));
    args.push(arg("-i"));
    args.push(arg(list));
    args.push(arg("-c"));
    args.push(arg("copy"));
    args.push(arg(output));
    let call = Invocation { program: Program::Transform, args };
    assert(call@.args =~= concat_call(list@, output@).args);
    call
}

/// The call that asks for the duration of `video`.
pub fn duration_command(video: &str) -> (call: Invocation)
    ensures
        call@ == duration_call(video@),
{
    let mut args: Vec<String> = Vec::new();
    args.push(arg("-v"));
    args.push(arg("error"));
    args.push(arg("-select_streams"));
    args.push(arg("v:0"));
    args.push(arg("-show_entries"));
    args.push(arg("format=duration"));
    args.push(arg("-of"));
    args.push(arg("default=noprint_wrappers=1:nokey=1"));
    args.push(arg(video));
    let call = Invocation { program: Program::Probe, args };
    assert(call@.args =~= duration_call(video@).args);
    call
}

/// The call that splits `source` at `offset` into `first` and `second`.
pub fn split_command(source: &str, offset: &str, first: &str, second: &str) -> (call: Invocation)
    ensures
        call@ == split_call(source@, offset@, first@, second@),
{
    let mut args: Vec<String> = Vec::new();
    args.push(arg("-i"));
    args.push(arg(source));
    args.push(arg("-t"));
    args.push(arg(offset));
    args.push(arg("-c"));
    args.push(arg("copy"));
    args.push(arg(first));
    args.push(arg("-ss"));
    args.push(arg(offset));
    args.push(arg("-c"));
    args.push(arg("copy"));
    args.push(arg(second));
    let call = Invocation { program: Program::Transform, args };
    assert(call@.args =~= split_call(source@, offset@, first@, second@).args);
    call
}

/// The call that succeeds only where `video` has audio.
pub fn audio_test_command(video: &str) -> (call: Invocation)
    ensures
        call@ == audio_test_call(video@),
{
    let mut args: Vec<String> = Vec::new();
    args.push(arg("-i"));
    args.push(arg(video));
    args.push(arg("-vn"));
    args.push(arg("-f"));
    args.push(arg("null"));
    args.push(arg("-"));
    let call = Invocation { program: Program::Transform, args };
    assert(call@.args =~= audio_test_call(video@).args);
    call
}

/// The call that writes the audio of `video` to `audio`.
pub fn extract_audio_command(video: &str, audio: &str) -> (call: Invocation)
    ensures
        call@ == extract_audio_call(video@, audio@),
{
    let mut args: Vec<String> = Vec::new();
    args.push(arg("-i"));
    args.push(arg(video));
    args.push(arg("-q:a"));
    args.push(arg("0"));
    args.push(arg("-map"));
    args.push(arg("a"));
    args.push(arg(audio));
    let call = Invocation { program: Program::Transform, args };
    assert(call@.args =~= extract_audio_call(video@, audio@).args);
    call
}

/// The call that writes `video` without its audio to `muted`.
pub fn mute_command(video: &str, muted: &str) -> (call: Invocation)
    ensures
        call@ == mute_call(video@, muted@),
{
    let mut args: Vec<String> = Vec::new();
    args.push(arg("-i"));
    args.push(arg(video));
    args.push(arg("-an"));
    args.push(arg("-c:v"));
    args.push(arg("copy"));
    args.push(arg(muted));
    let call = Invocation { program: Program::Transform, args };
    assert(call@.args =~= mute_call(video@, muted@).args);
    call
}

/// `path` with every `/` turned into a backslash.
pub open spec fn normalized(path: Seq<char>) -> Seq<char> {
    path.map_values(
        |c: char|
            if c == '/' {
                '\\'
            } else {
                c
            },
    )
}

/// The manifest's line for one input.
pub open spec fn manifest_line(path: Seq<char>) -> Seq<char> {
    "file '"@ + normalized(path) + "'\n"@
}

/// The manifest of a concatenation: one line for each input, in order.
pub open spec fn manifest(paths: Seq<Seq<char>>) -> Seq<char>
    decreases paths.len(),
{
    if paths.len() == 0 {
        Seq::empty()
    } else {
        manifest(paths.drop_last()) + manifest_line(paths.last())
    }
}

/// `path` with every `/` turned into a backslash.
pub fn normalize(path: &str) -> (out: String)
    ensures
        out@ == normalized(path@),
{
    let chars = chars_of(path);
    let mut out = String::new();
    let mut i: usize = 0;
    while i < chars.len()
        invariant
            i <= chars@.len(),
            chars@ == path@,
            out@ =~= normalized(path@.subrange(0, i as int)),
        decreases chars@.len() - i,
    {
        let c = chars[i];
        if c == '/' {
            push_char(&mut out, '\\');
        } else {
            push_char(&mut out, c);
        }
        i = i + 1;
    }
    assert(path@.subrange(0, chars@.len() as int) =~= path@);
    out
}

/// Writes the manifest that names `paths` as the inputs of a concatenation.
pub fn concat_manifest(paths: &Vec<String>) -> (list: String)
    ensures
        list@ == manifest(texts(paths@)),
{
    let mut list = String::new();
    let mut i: usize = 0;
    while i < paths.len()
        invariant
            i <= paths@.len(),
            list@ == manifest(texts(paths@).subrange(0, i as int)),
        decreases paths@.len() - i,
    {
        let ghost upto = texts(paths@).subrange(0, i + 1);
        assert(upto.drop_last() =~= texts(paths@).subrange(0, i as int));
        assert(upto.last() == paths@[i as int]@);
        list.append("file '");
        let line = normalize(paths[i].as_str());
        list.append(line.as_str());
        list.append("'\n");
        assert(list@ =~= manifest(upto));
        i = i + 1;
    }
    assert(texts(paths@).subrange(0, paths@.len() as int) =~= texts(paths@));
    list
}

} // verus!
