use vstd::prelude::*;
use vstd::string::{StrSliceExecFns, StringExecFns};
use crate::config::{ColorSpace, Config, Error, Function, Mode};

verus! {

/// What the file system says of a path.
#[derive(Clone, Copy, Debug, PartialEq, Eq, Structural)]
pub enum PathKind {
    Directory,
    File,
    Other,
}

/// The work that a run comes to: the image at `source` is read, its
/// energy map is taken in `mode` and `color_space`, and the picture is
/// written to `target`.
#[derive(Clone, Debug)]
pub struct Task {
    pub source: String,
    pub target: String,
    pub mode: Mode,
    pub color_space: ColorSpace,
    pub convert_lab_to_rgb: bool,
}

/// Position of the last `ch` in `s`, or -1 where `s` holds none.
pub open spec fn last_index_of(s: Seq<char>, ch: char) -> int
    decreases s.len(),
{
    if s.len() == 0 {
        -1
    } else if s.last() == ch {
        s.len() - 1
    } else {
        last_index_of(s.drop_last(), ch)
    }
}

/// Where the file name starts in `path`: behind the last `/`, or at the
/// front where there is none.
pub open spec fn name_start(path: Seq<char>) -> int {
    last_index_of(path, '/') + 1
}

/// The file name of `path`: what follows the last `/`.
pub open spec fn file_name_of(path: Seq<char>) -> Seq<char> {
    path.subrange(name_start(path), path.len() as int)
}

/// Whether `path` ends in the name of a file: a name that is not empty
/// and is neither `.` nor `..`.
pub open spec fn names_a_file(path: Seq<char>) -> bool {
    let name = file_name_of(path);
    &&& name.len() > 0
    &&& !(name.len() == 1 && name[0] == '.')
    &&& !(name.len() == 2 && name[0] == '.' && name[1] == '.')
}

/// Length of the stem of a file name: the name up to its last `.`, or
/// the whole name where it holds no `.` or only one in front.
pub open spec fn stem_len(name: Seq<char>) -> int {
    let dot = last_index_of(name, '.');
    if dot > 0 {
        dot
    } else {
        name.len() as int
    }
}

/// The path of the picture that belongs to the image at `path`: in the
/// same directory, named by the stem of the image's name followed by
/// ` energy.png`.
pub open spec fn new_path_of(path: Seq<char>) -> Seq<char> {
    path.subrange(0, name_start(path) + stem_len(file_name_of(path))) + " energy.png"@
}

/// `last_index_of` is at least -1 and less than the length, is the
/// position of a `ch` unless it is -1, and no `ch` follows it.
pub proof fn lemma_last_index_of(s: Seq<char>, ch: char)
    ensures
        -1 <= last_index_of(s, ch) < s.len(),
        last_index_of(s, ch) >= 0 ==> s[last_index_of(s, ch)] == ch,
        forall|j: int| last_index_of(s, ch) < j < s.len() ==> s[j] != ch,
    decreases s.len(),
{
    if s.len() > 0 && s.last() != ch {
        let front = s.drop_last();
        lemma_last_index_of(front, ch);
        assert forall|j: int| last_index_of(s, ch) < j < s.len() implies s[j] != ch by {
            if j < front.len() {
                assert(front[j] == s[j]);
            }
        }
    }
}

proof fn lemma_last_index_found(s: Seq<char>, ch: char, k: int)
    requires
        -1 <= k < s.len(),
        k >= 0 ==> s[k] == ch,
        forall|j: int| k < j < s.len() ==> s[j] != ch,
    ensures
        last_index_of(s, ch) == k,
    decreases s.len(),
{
    if s.len() > 0 && s.last() != ch {
        let front = s.drop_last();
        assert forall|j: int| k < j < front.len() implies front[j] != ch by {
            assert(front[j] == s[j]);
        }
        lemma_last_index_found(front, ch, k);
    }
}

/// Finds the last `ch` in `s`.
pub fn last_index(s: &str, ch: char) -> (found: Option<usize>)
    ensures
        match found {
            Some(i) => i == last_index_of(s@, ch),
            None => last_index_of(s@, ch) == -1,
        },
{
    let len: usize = s.unicode_len();
    let mut i: usize = len;
    while i > 0
        invariant
            i <= len,
            len == s@.len(),
            forall|j: int| i <= j < len ==> s@[j] != ch,
        decreases i,
    {
        if s.get_char(i - 1) == ch {
            proof {
                lemma_last_index_found(s@, ch, i - 1);
            }
            return Some(i - 1);
        }
        i -= 1;
    }
    proof {
        lemma_last_index_found(s@, ch, -1);
    }
    None
}

fn start_of_name(path: &str) -> (start: usize)
    ensures
        start == name_start(path@),
        start <= path@.len(),
{
    let len: usize = path.unicode_len();
    proof {
        lemma_last_index_of(path@, '/');
    }
    assert(last_index_of(path@, '/') < len);
    match last_index(path, '/') {
        Some(i) => i + 1,
        None => 0,
    }
}

/// Tells whether `path` ends in the name of a file.
pub fn has_file_name(path: &str) -> (has: bool)
    ensures
        has == names_a_file(path@),
{
    let len: usize = path.unicode_len();
    let start: usize = start_of_name(path);
    let name: &str = path.substring_char(start, len);
    let name_len: usize = len - start;
    if name_len == 0 {
        false
    } else if name_len == 1 {
        name.get_char(0) != '.'
    } else if name_len == 2 {
        !(name.get_char(0) == '.' && name.get_char(1) == '.')
    } else {
        true
    }
}

/// Makes the path of the picture out of the path of the image: the file
/// name loses its extension and gets ` energy.png` in its place.
pub fn new_path(path: &str) -> (target: String)
    requires
        names_a_file(path@),
    ensures
        target@ == new_path_of(path@),
{
    let len: usize = path.unicode_len();
    let start: usize = start_of_name(path);
    let name: &str = path.substring_char(start, len);
    let name_len: usize = len - start;
    proof {
        lemma_last_index_of(name@, '.');
    }
    let stem: usize = match last_index(name, '.') {
        Some(dot) => if dot > 0 {
            dot
        } else {
            name_len
        },
        None => name_len,
    };
    let kept: &str = path.substring_char(0, start + stem);
    let mut target: String = String::from_str(kept);
    target.append(" energy.png");
    target
}

/// Decides what a run comes to, from its settings and from what the file
/// system says of the path: the energy map of a file is a task, and
/// everything else is refused.
pub fn process(config: &Config, kind: PathKind) -> (task: Result<Task, Error>)
    ensures
        kind == PathKind::Other ==> task == Err::<Task, Error>(Error::NotFileOrDirectory),
        kind == PathKind::Directory ==> task == Err::<Task, Error>(Error::DirectoryNotSupported),
        kind == PathKind::File && config.function != Function::Energy ==> task == Err::<
            Task,
            Error,
        >(Error::FunctionNotSupported),
        kind == PathKind::File && config.function == Function::Energy && !names_a_file(
            config.path@,
        ) ==> task == Err::<Task, Error>(Error::NoFileName),
        kind == PathKind::File && config.function == Function::Energy && names_a_file(config.path@)
            ==> task is Ok && ({
            let t = task->Ok_0;
            &&& t.source@ == config.path@
            &&& t.target@ == new_path_of(config.path@)
            &&& t.mode == config.mode
            &&& t.color_space == config.color_space
            &&& t.convert_lab_to_rgb == config.convert_lab_to_rgb
        }),
{
    match kind {
        PathKind::Other => Err(Error::NotFileOrDirectory),
        PathKind::Directory => Err(Error::DirectoryNotSupported),
        PathKind::File => {
            match config.function {
                Function::Energy => {
                    if has_file_name(config.path.as_str()) {
                        Ok(
                            Task {
                                source: config.path.clone(),
                                target: new_path(config.path.as_str()),
                                mode: config.mode,
                                color_space: config.color_space,
                                convert_lab_to_rgb: config.convert_lab_to_rgb,
                            },
                        )
                    } else {
                        Err(Error::NoFileName)
                    }
                },
                _ => Err(Error::FunctionNotSupported),
            }
        },
    }
}

} // verus!
