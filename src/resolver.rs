//! Classifying command names: the closed set of built-ins, and the search of
//! an ordered list of directories for an executable file.

use vstd::prelude::*;
use vstd::string::*;

use crate::text::{opt_view, same_text, views};

verus! {

/// The built-in operations of the interpreter.
#[derive(Clone, Copy, Debug, PartialEq, Eq, Structural)]
pub enum Command {
    Echo,
    Type,
    Exit,
    Pwd,
    Cd,
}

/// The built-in named `s`, if any.
pub open spec fn builtin_of(s: Seq<char>) -> Option<Command> {
    if s == "echo"@ {
        Some(Command::Echo)
    } else if s == "type"@ {
        Some(Command::Type)
    } else if s == "exit"@ {
        Some(Command::Exit)
    } else if s == "pwd"@ {
        Some(Command::Pwd)
    } else if s == "cd"@ {
        Some(Command::Cd)
    } else {
        None
    }
}

/// The text that describes `name` as a built-in, or nothing when it is none.
pub open spec fn builtin_description(name: Seq<char>) -> Option<Seq<char>> {
    if builtin_of(name) is Some {
        Some(name + " is a shell builtin"@)
    } else {
        None
    }
}

/// The path of the file `name` inside directory `dir`, with a separator put
/// in only where `dir` lacks one.
pub open spec fn join_path(dir: Seq<char>, name: Seq<char>) -> Seq<char> {
    if dir.len() == 0 || dir.last() == '/' {
        dir + name
    } else {
        dir + seq!['/'] + name
    }
}

/// The candidate path of the first directory whose candidate is executable.
pub open spec fn first_executable(dirs: Seq<Seq<char>>, name: Seq<char>, exec: Seq<bool>) -> Option<
    Seq<char>,
>
    decreases dirs.len(),
{
    if dirs.len() == 0 || exec.len() == 0 {
        None
    } else if exec[0] {
        Some(join_path(dirs[0], name))
    } else {
        first_executable(dirs.drop_first(), name, exec.drop_first())
    }
}

/// Whether `s` holds a path separator.
pub open spec fn has_slash(s: Seq<char>) -> bool {
    exists|i: int| 0 <= i < s.len() && s[i] == '/'
}

/// What `name` resolves to on the search path `dirs`: a name holding a
/// separator names no file directly inside a directory, and resolves to
/// nothing; any other resolves to its first executable candidate.
pub open spec fn resolution(dirs: Seq<Seq<char>>, name: Seq<char>, exec: Seq<bool>) -> Option<
    Seq<char>,
> {
    if has_slash(name) {
        None
    } else {
        first_executable(dirs, name, exec)
    }
}

/// Whether `s` holds a path separator.
pub fn contains_slash(s: &str) -> (r: bool)
    ensures
        r == has_slash(s@),
{
    let n = s.unicode_len();
    let mut i: usize = 0;
    while i < n
        invariant
            n == s@.len(),
            i <= n,
            forall|j: int| 0 <= j < i ==> s@[j] != '/',
        decreases n - i,
    {
        if s.get_char(i) == '/' {
            return true;
        }
        i = i + 1;
    }
    false
}

/// When several directories hold an executable of a name (which holds no
/// separator, as a file directly inside a directory does), the path that
/// resolution gives is that of the earliest of them in the search order: it
/// lies in no directory after `i`, the first of any two such directories.
pub proof fn lemma_first_directory_wins(
    dirs: Seq<Seq<char>>,
    name: Seq<char>,
    exec: Seq<bool>,
    i: int,
    j: int,
)
    requires
        dirs.len() == exec.len(),
        !has_slash(name),
        0 <= i < j < dirs.len(),
        exec[i],
        exec[j],
    ensures
        exists|k: int|
            0 <= k <= i && exec[k] && (forall|m: int| 0 <= m < k ==> !exec[m])
                && resolution(dirs, name, exec) == Some(join_path(#[trigger] dirs[k], name)),
    decreases i,
{
    if exec[0] {
        assert(resolution(dirs, name, exec) == Some(join_path(dirs[0], name)));
    } else {
        let d = dirs.drop_first();
        let e = exec.drop_first();
        lemma_first_directory_wins(d, name, e, i - 1, j - 1);
        let k = choose|k: int|
            0 <= k <= i - 1 && e[k] && (forall|m: int| 0 <= m < k ==> !e[m])
                && resolution(d, name, e) == Some(join_path(#[trigger] d[k], name));
        assert(dirs[k + 1] == d[k]);
        assert forall|m: int| 0 <= m < k + 1 implies !exec[m] by {
            if m > 0 {
                assert(exec[m] == e[m - 1]);
            }
        }
    }
}

/// Number of leading characters of `s` before its first `:`.
pub open spec fn entry_len(s: Seq<char>) -> nat
    decreases s.len(),
{
    if s.len() == 0 || s[0] == ':' {
        0
    } else {
        1 + entry_len(s.drop_first())
    }
}

proof fn lemma_entry_len_exact(t: Seq<char>, k: int)
    requires
        0 <= k <= t.len(),
        forall|j: int| 0 <= j < k ==> #[trigger] t[j] != ':',
        k == t.len() || t[k] == ':',
    ensures
        entry_len(t) == k,
    decreases k,
{
    if k > 0 {
        let u = t.drop_first();
        assert forall|j: int| 0 <= j < k - 1 implies #[trigger] u[j] != ':' by {
            assert(u[j] == t[j + 1]);
        }
        lemma_entry_len_exact(u, k - 1);
    }
}

/// A list's first entry is no longer than the list.
pub proof fn lemma_entry_len_bound(s: Seq<char>)
    ensures
        entry_len(s) <= s.len(),
    decreases s.len(),
{
    if s.len() > 0 && s[0] != ':' {
        lemma_entry_len_bound(s.drop_first());
    }
}

/// The entries of a colon-separated list, empty ones included.
pub open spec fn entries(s: Seq<char>) -> Seq<Seq<char>>
    decreases s.len(),
{
    proof {
        lemma_entry_len_bound(s);
    }
    let k = entry_len(s) as int;
    if k >= s.len() {
        seq![s]
    } else {
        seq![s.take(k)] + entries(s.skip(k + 1))
    }
}

/// The search path that the colon-separated `value` lists, in order; an
/// absent value gives none.
pub fn search_path(value: Option<&str>) -> (r: Vec<String>)
    ensures
        views(r@) == match value {
            Some(v) => entries(v@),
            None => Seq::<Seq<char>>::empty(),
        },
{
    let mut r: Vec<String> = Vec::new();
    let s = match value {
        Some(v) => v,
        None => {
            assert(views(r@) =~= Seq::<Seq<char>>::empty());
            return r;
        },
    };
    let n = s.unicode_len();
    let mut start: usize = 0;
    let mut i: usize = 0;
    assert(s@.skip(0) =~= s@);
    assert(views(r@) =~= Seq::<Seq<char>>::empty());
    while i < n
        invariant
            n == s@.len(),
            start <= i <= n,
            forall|j: int| start <= j < i ==> #[trigger] s@[j] != ':',
            entries(s@) == views(r@) + entries(s@.skip(start as int)),
        decreases n - i,
    {
        if s.get_char(i) == ':' {
            let ghost t = s@.skip(start as int);
            assert forall|j: int| 0 <= j < i - start implies #[trigger] t[j] != ':' by {
                assert(t[j] == s@[start + j]);
            }
            proof {
                lemma_entry_len_exact(t, i - start);
            }
            assert(t.take(i - start) =~= s@.subrange(start as int, i as int));
            assert(t.skip(i - start + 1) =~= s@.skip(i + 1));
            let ghost r0 = r@;
            r.push(String::from_str(s.substring_char(start, i)));
            assert(views(r@) =~= views(r0).push(s@.subrange(start as int, i as int)));
            assert(views(r@) + entries(s@.skip(i + 1)) =~= views(r0) + (seq![
                s@.subrange(start as int, i as int),
            ] + entries(s@.skip(i + 1))));
            start = i + 1;
        }
        i = i + 1;
    }
    let ghost t = s@.skip(start as int);
    assert forall|j: int| 0 <= j < n - start implies #[trigger] t[j] != ':' by {
        assert(t[j] == s@[start + j]);
    }
    proof {
        lemma_entry_len_exact(t, n - start);
    }
    assert(s@.subrange(start as int, n as int) =~= t);
    let ghost r0 = r@;
    r.push(String::from_str(s.substring_char(start, n)));
    assert(views(r@) =~= views(r0) + seq![t]);
    r
}

/// Whether a file-system entry can be run: it is a regular file and one of
/// the owner, group or other execute bits of its `mode` is set.
pub fn is_executable(is_file: bool, mode: u32) -> (r: bool)
    ensures
        r == (is_file && mode & 0o111u32 != 0),
{
    is_file && mode & 0o111 != 0
}

impl Command {
    /// The built-in named `name`, if there is one.
    pub fn lookup(name: &str) -> (r: Option<Command>)
        ensures
            r == builtin_of(name@),
    {
        if same_text(name, "echo") {
            Some(Command::Echo)
        } else if same_text(name, "type") {
            Some(Command::Type)
        } else if same_text(name, "exit") {
            Some(Command::Exit)
        } else if same_text(name, "pwd") {
            Some(Command::Pwd)
        } else if same_text(name, "cd") {
            Some(Command::Cd)
        } else {
            None
        }
    }

    /// Describes `command` as a built-in, or returns `None` when it is none.
    pub fn is_builtin(command: &str) -> (r: Option<String>)
        ensures
            opt_view(r) == builtin_description(command@),
    {
        match Command::lookup(command) {
            Some(_) => {
                let r = String::from_str(command).concat(" is a shell builtin");
                Some(r)
            },
            None => None,
        }
    }

    /// The path at which `command` is looked for inside directory `dir`.
    pub fn candidate(dir: &str, command: &str) -> (r: String)
        ensures
            r@ == join_path(dir@, command@),
    {
        let dn = dir.unicode_len();
        if dn == 0 || dir.get_char(dn - 1) == '/' {
            String::from_str(dir).concat(command)
        } else {
            proof {
                reveal_strlit("/");
            }
            String::from_str(dir).concat("/").concat(command)
        }
    }

    /// Searches `paths` in order for `command`. `executable[i]` tells whether
    /// the candidate `Command::candidate(&paths[i], command)` is a regular
    /// file with an execute permission bit set; the first such candidate is
    /// returned. A command holding a `/` is found in no directory.
    pub fn get_command_path(command: &str, paths: &[String], executable: &[bool]) -> (r: Option<
        String,
    >)
        requires
            paths.len() == executable.len(),
        ensures
            opt_view(r) == resolution(views(paths@), command@, executable@),
            has_slash(command@) ==> r is None,
    {
        if contains_slash(command) {
            return None;
        }
        let mut i: usize = 0;
        assert(views(paths@).skip(0) =~= views(paths@));
        assert(executable@.skip(0) =~= executable@);
        while i < paths.len()
            invariant
                paths.len() == executable.len(),
                !has_slash(command@),
                i <= paths.len(),
                first_executable(views(paths@), command@, executable@) == first_executable(
                    views(paths@).skip(i as int),
                    command@,
                    executable@.skip(i as int),
                ),
            decreases paths.len() - i,
        {
            let ghost d = views(paths@).skip(i as int);
            let ghost e = executable@.skip(i as int);
            assert(d.drop_first() =~= views(paths@).skip(i + 1));
            assert(e.drop_first() =~= executable@.skip(i + 1));
            if executable[i] {
                return Some(Command::candidate(paths[i].as_str(), command));
            }
            i = i + 1;
        }
        None
    }
}

} // verus!
