//! Choosing and checking the output path of a compiled executable.

use vstd::prelude::*;

use crate::text::{append_text, last_index_of, last_index_of_char, lemma_last_index_bounds, push_char};

verus! {

/// `p` without the `/` characters at its end.
pub open spec fn trim_end_slashes(p: Seq<char>) -> Seq<char>
    decreases p.len(),
{
    if p.len() > 0 && p.last() == '/' {
        trim_end_slashes(p.drop_last())
    } else {
        p
    }
}

/// Where the last component of `t` starts.
pub open spec fn name_start(t: Seq<char>) -> int {
    last_index_of(t, '/') + 1
}

/// The last component of a path, after trailing slashes.
pub open spec fn last_component(p: Seq<char>) -> Seq<char> {
    let t = trim_end_slashes(p);
    t.subrange(name_start(t), t.len() as int)
}

pub open spec fn has_file_name(p: Seq<char>) -> bool {
    let n = last_component(p);
    n.len() > 0 && n != seq!['.'] && n != seq!['.', '.']
}

/// The text after the last `.` of the file name, where that `.` is not its
/// first character.
pub open spec fn extension_of(p: Seq<char>) -> Option<Seq<char>> {
    let n = last_component(p);
    let i = last_index_of(n, '.');
    if !has_file_name(p) || i <= 0 {
        None
    } else {
        Some(n.subrange(i + 1, n.len() as int))
    }
}

pub open spec fn exe() -> Seq<char> {
    seq!['e', 'x', 'e']
}

/// `s` holds `pat` somewhere.
pub open spec fn contains_text(s: Seq<char>, pat: Seq<char>) -> bool {
    exists|i: int| 0 <= i <= s.len() - pat.len() && #[trigger] s.subrange(i, i + pat.len()) == pat
}

pub open spec fn windows_word() -> Seq<char> {
    seq!['w', 'i', 'n', 'd', 'o', 'w', 's']
}

/// Whether the executable is for Windows: the target names it, or, without
/// a target, the host is Windows.
pub open spec fn targets_windows(target: Option<Seq<char>>, host_is_windows: bool) -> bool {
    match target {
        Some(t) => contains_text(t, windows_word()),
        None => host_is_windows,
    }
}

/// The path with `.exe` added for Windows executables that lack it.
pub open spec fn os_specific_path(output: Seq<char>, windows: bool) -> Seq<char> {
    if windows && has_file_name(output) && extension_of(output) != Some(exe()) {
        trim_end_slashes(output) + seq!['.'] + exe()
    } else {
        output
    }
}

fn trim_len(p: &str) -> (r: usize)
    ensures
        r <= p@.len(),
        trim_end_slashes(p@) == p@.subrange(0, r as int),
{
    let mut n = p.unicode_len();
    assert(p@.subrange(0, n as int) =~= p@);
    while n > 0 && p.get_char(n - 1) == '/'
        invariant
            n <= p@.len(),
            trim_end_slashes(p@) == trim_end_slashes(p@.subrange(0, n as int)),
        decreases n,
    {
        assert(p@.subrange(0, n as int).drop_last() =~= p@.subrange(0, n - 1));
        n = n - 1;
    }
    n
}

fn windows_at(t: &str, i: usize) -> (r: bool)
    requires
        i + 7 <= t@.len() <= usize::MAX,
    ensures
        r == (t@.subrange(i as int, i + 7) == windows_word()),
{
    let ghost w = windows_word();
    let r = t.get_char(i) == 'w' && t.get_char(i + 1) == 'i' && t.get_char(i + 2) == 'n' && t.get_char(i + 3) == 'd'
        && t.get_char(i + 4) == 'o' && t.get_char(i + 5) == 'w' && t.get_char(i + 6) == 's';
    proof {
        let sub = t@.subrange(i as int, i + 7);
        if r {
            assert(sub =~= w);
        }
        if sub == w {
            assert(sub[0] == w[0] && sub[1] == w[1] && sub[2] == w[2] && sub[3] == w[3]);
            assert(sub[4] == w[4] && sub[5] == w[5] && sub[6] == w[6]);
        }
    }
    r
}

fn contains_windows(t: &str) -> (r: bool)
    ensures
        r == contains_text(t@, windows_word()),
{
    let n = t.unicode_len();
    if n < 7 {
        return false;
    }
    let mut i: usize = 0;
    while i <= n - 7
        invariant
            n == t@.len(),
            n >= 7,
            forall|j: int| 0 <= j < i ==> #[trigger] t@.subrange(j, j + 7) != windows_word(),
        decreases n - i,
    {
        if windows_at(t, i) {
            assert(t@.subrange(i as int, i + windows_word().len()) == windows_word());
            return true;
        }
        i = i + 1;
    }
    false
}

fn is_exe(s: &str) -> (r: bool)
    ensures
        r == (s@ == exe()),
{
    let r = s.unicode_len() == 3 && s.get_char(0) == 'e' && s.get_char(1) == 'x' && s.get_char(2) == 'e';
    proof {
        if r {
            assert(s@ =~= exe());
        }
        if s@ == exe() {
            assert(s@[0] == 'e' && s@[1] == 'x' && s@[2] == 'e');
        }
    }
    r
}

/// The output path adjusted for the target: Windows executables get `.exe`
/// unless they have it (`my-exe-0.1.2` becomes `my-exe-0.1.2.exe`).
pub fn get_os_specific_filepath(output: String, target: &Option<String>, host_is_windows: bool) -> (r: String)
    ensures
        r@ == os_specific_path(
            output@,
            targets_windows(
                match target {
                    Some(t) => Some(t@),
                    None => None,
                },
                host_is_windows,
            ),
        ),
{
    let is_windows = match target {
        Some(t) => contains_windows(t.as_str()),
        None => host_is_windows,
    };
    if !is_windows {
        return output;
    }
    let p = output.as_str();
    let t_len = trim_len(p);
    let t = p.substring_char(0, t_len);
    let start = match last_index_of_char(t, '/') {
        Some(i) => i + 1,
        None => 0,
    };
    proof {
        lemma_last_index_bounds(t@, '/');
    }
    let name = t.substring_char(start, t_len);
    assert(name@ =~= last_component(output@));
    let name_len = name.unicode_len();
    let is_dot = name_len == 1 && name.get_char(0) == '.';
    let is_dot_dot = name_len == 2 && name.get_char(0) == '.' && name.get_char(1) == '.';
    proof {
        if name@ == seq!['.'] {
            assert(name@[0] == '.');
        }
        if name@ == seq!['.', '.'] {
            assert(name@[0] == '.' && name@[1] == '.');
        }
        if is_dot {
            assert(name@ =~= seq!['.']);
        }
        if is_dot_dot {
            assert(name@ =~= seq!['.', '.']);
        }
    }
    if name_len == 0 || is_dot || is_dot_dot {
        return output;
    }
    let has_exe = match last_index_of_char(name, '.') {
        Some(i) => {
            if i == 0 {
                false
            } else {
                is_exe(name.substring_char(i + 1, name_len))
            }
        },
        None => false,
    };
    proof {
        lemma_last_index_bounds(name@, '.');
    }
    if has_exe {
        return output;
    }
    let mut r = String::new();
    append_text(&mut r, t);
    push_char(&mut r, '.');
    push_char(&mut r, 'e');
    push_char(&mut r, 'x');
    push_char(&mut r, 'e');
    assert(r@ =~= trim_end_slashes(output@) + seq!['.'] + exe());
    r
}


/// Whether a path ends with the host's separator.
pub open spec fn has_trailing_separator(p: Seq<char>, host_is_windows: bool) -> bool {
    p.len() > 0 && p.last() == if host_is_windows { '\\' } else { '/' }
}

/// The output path chosen before the target is considered: an explicit
/// output, with the inferred name appended where it names a directory;
/// else the inferred name.
pub open spec fn chosen_output(output: Option<Seq<char>>, inferred_name: Option<Seq<char>>, host_is_windows: bool) -> Option<Seq<char>> {
    match output {
        Some(out) => if has_trailing_separator(out, host_is_windows) && inferred_name is Some {
            Some(out + inferred_name->0)
        } else {
            Some(out)
        },
        None => inferred_name,
    }
}

pub open spec fn opt_text(o: Option<String>) -> Option<Seq<char>> {
    match o {
        Some(s) => Some(s@),
        None => None,
    }
}

/// The executable's path from the `--output` flag and the name inferred
/// from the main module's URL; `None` where neither gives one.
pub fn resolve_compile_executable_output_path(
    output: Option<String>,
    inferred_name: Option<String>,
    target: &Option<String>,
    host_is_windows: bool,
) -> (r: Option<String>)
    ensures
        opt_text(r) == match chosen_output(opt_text(output), opt_text(inferred_name), host_is_windows) {
            Some(p) => Some(os_specific_path(p, targets_windows(opt_text(*target), host_is_windows))),
            None => None,
        },
{
    let chosen = match output {
        Some(out) => {
            let n = out.as_str().unicode_len();
            let sep = if host_is_windows { '\\' } else { '/' };
            if n > 0 && out.as_str().get_char(n - 1) == sep {
                match inferred_name {
                    Some(name) => {
                        let mut joined = out;
                        append_text(&mut joined, name.as_str());
                        Some(joined)
                    },
                    None => Some(out),
                }
            } else {
                Some(out)
            }
        },
        None => inferred_name,
    };
    match chosen {
        Some(p) => Some(get_os_specific_filepath(p, target, host_is_windows)),
        None => None,
    }
}

/// What the caller found at the output path and at its parent.
pub struct OutputPathState {
    pub exists: bool,
    pub is_dir: bool,
    /// The existing file is an executable this tool wrote.
    pub is_standalone_binary: bool,
    pub parent_exists: bool,
    pub parent_is_file: bool,
}

/// What to do before writing the executable.
#[derive(PartialEq, Eq, Structural, Clone, Copy, Debug)]
pub enum OutputPathAction {
    /// Remove the earlier executable at the path.
    RemoveExisting,
    /// Create the parent directory (and its parents).
    CreateParent,
}

/// Why the executable cannot be written at the path.
#[derive(PartialEq, Eq, Structural, Clone, Copy, Debug)]
pub enum OutputPathError {
    /// A directory has the path.
    IsDirectory,
    /// A file that this tool did not write has the path.
    NotStandaloneBinary,
    /// The parent is a file.
    ParentIsFile,
}

/// Checks the output path: an existing directory or foreign file is never
/// overwritten.
pub fn validate_output_path(state: &OutputPathState) -> (r: Result<OutputPathAction, OutputPathError>)
    ensures
        r == if state.exists {
            if state.is_dir {
                Err(OutputPathError::IsDirectory)
            } else if !state.is_standalone_binary {
                Err(OutputPathError::NotStandaloneBinary)
            } else {
                Ok(OutputPathAction::RemoveExisting)
            }
        } else if state.parent_exists && state.parent_is_file {
            Err(OutputPathError::ParentIsFile)
        } else {
            Ok(OutputPathAction::CreateParent)
        },
{
    if state.exists {
        if state.is_dir {
            Err(OutputPathError::IsDirectory)
        } else if !state.is_standalone_binary {
            Err(OutputPathError::NotStandaloneBinary)
        } else {
            Ok(OutputPathAction::RemoveExisting)
        }
    } else if state.parent_exists && state.parent_is_file {
        Err(OutputPathError::ParentIsFile)
    } else {
        Ok(OutputPathAction::CreateParent)
    }
}

} // verus!
