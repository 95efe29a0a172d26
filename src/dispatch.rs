//! Deciding what one input line asks for, and turning the outcome of the
//! work that it needs into the response text.

use vstd::prelude::*;
use vstd::string::*;

use crate::resolver::{builtin_description, builtin_of, Command};
use crate::text::{is_space, join_spaced, join_words, opt_view, tokenize, views, words};

verus! {

/// What the interpreter does with one input line.
pub enum Step {
    /// The response is known without further work.
    Respond(String),
    /// Terminate the process with exit code 0; no response is produced.
    Exit,
    /// Respond with the current working directory.
    Pwd,
    /// Describe a name that is not a built-in: look it up on the search path.
    TypeLookup(String),
    /// Change the working directory to the target.
    ChangeDir(String),
    /// Look up the command on the search path and run it with the arguments.
    Run(String, Vec<String>),
}

/// The mathematical model of a `Step`.
pub enum StepModel {
    Respond(Seq<char>),
    Exit,
    Pwd,
    TypeLookup(Seq<char>),
    ChangeDir(Seq<char>),
    Run(Seq<char>, Seq<Seq<char>>),
}

impl View for Step {
    type V = StepModel;

    open spec fn view(&self) -> StepModel {
        match self {
            Step::Respond(s) => StepModel::Respond(s@),
            Step::Exit => StepModel::Exit,
            Step::Pwd => StepModel::Pwd,
            Step::TypeLookup(s) => StepModel::TypeLookup(s@),
            Step::ChangeDir(s) => StepModel::ChangeDir(s@),
            Step::Run(c, a) => StepModel::Run(c@, views(a@)),
        }
    }
}

/// How an attempt to change the working directory ended.
pub enum CdOutcome {
    Changed,
    NotFound,
    PermissionDenied,
    /// Any other failure, with the error's text.
    Other(String),
}

/// How the search for and the run of an external command ended.
pub enum RunOutcome {
    /// No directory of the search path holds the command.
    Unresolved,
    /// The command was found but could not be started.
    Failed,
    /// The command ran; its captured standard output.
    Finished(String),
}

/// The response of `type name`, given what the search path resolved it to.
pub open spec fn type_text(name: Seq<char>, resolved: Option<Seq<char>>) -> Seq<char> {
    match resolved {
        Some(p) => name + " is "@ + p,
        None => name + ": not found"@,
    }
}

/// The response of `cd` to `target`, given how the change ended.
pub open spec fn cd_text(target: Seq<char>, outcome: CdOutcome) -> Seq<char> {
    match outcome {
        CdOutcome::Changed => Seq::empty(),
        CdOutcome::NotFound => "cd: "@ + target + ": No such file or directory"@,
        CdOutcome::PermissionDenied => "cd: permission denied: "@ + target,
        CdOutcome::Other(e) => "cd: error changing to "@ + target + ": "@ + e@,
    }
}

/// `s` without one trailing line ending (`\n` or `\r\n`), if it has one.
pub open spec fn trim_line_end(s: Seq<char>) -> Seq<char> {
    if s.len() >= 2 && s[s.len() - 2] == '\r' && s[s.len() - 1] == '\n' {
        s.take(s.len() - 2)
    } else if s.len() >= 1 && s[s.len() - 1] == '\n' {
        s.take(s.len() - 1)
    } else {
        s
    }
}

/// The response of `type` without an argument.
pub open spec fn type_usage() -> Seq<char> {
    "type: expected an argument of a command name"@
}

/// The response of `cd` when there is no directory to change to.
pub open spec fn home_unset() -> Seq<char> {
    "cd: HOME environment variable not set"@
}

/// The value of the home directory lookup, empty where there is none.
pub open spec fn home_text(home: Option<&str>) -> Seq<char> {
    match home {
        Some(h) => h@,
        None => Seq::empty(),
    }
}

/// `s` with every `~` replaced by `h`.
pub open spec fn replace_tilde(s: Seq<char>, h: Seq<char>) -> Seq<char>
    decreases s.len(),
{
    if s.len() == 0 {
        Seq::empty()
    } else {
        (if s[0] == '~' {
            h
        } else {
            seq![s[0]]
        }) + replace_tilde(s.drop_first(), h)
    }
}

/// The directory that `cd` with arguments `args` changes to.
pub open spec fn cd_target(args: Seq<Seq<char>>, home: Option<&str>) -> Seq<char> {
    if args.len() > 0 {
        replace_tilde(args[0], home_text(home))
    } else {
        home_text(home)
    }
}

/// What the interpreter does with the words `toks` of a line.
pub open spec fn step_of(toks: Seq<Seq<char>>, home: Option<&str>) -> StepModel {
    if toks.len() == 0 {
        StepModel::Respond(Seq::empty())
    } else {
        let args = toks.skip(1);
        match builtin_of(toks[0]) {
            Some(Command::Echo) => StepModel::Respond(join_spaced(args)),
            Some(Command::Exit) => StepModel::Exit,
            Some(Command::Type) => if args.len() == 0 {
                StepModel::Respond(type_usage())
            } else {
                match builtin_description(args[0]) {
                    Some(d) => StepModel::Respond(d),
                    None => StepModel::TypeLookup(args[0]),
                }
            },
            Some(Command::Pwd) => StepModel::Pwd,
            Some(Command::Cd) => {
                let t = cd_target(args, home);
                if t.len() == 0 {
                    StepModel::Respond(home_unset())
                } else {
                    StepModel::ChangeDir(t)
                }
            },
            None => StepModel::Run(toks[0], args),
        }
    }
}

/// Replaces every `~` of `s` by `h`.
pub fn expand_tilde(s: &str, h: &str) -> (r: String)
    ensures
        r@ == replace_tilde(s@, h@),
{
    let n = s.unicode_len();
    let mut r = String::new();
    let mut i: usize = 0;
    assert(s@.skip(0) =~= s@);
    while i < n
        invariant
            n == s@.len(),
            i <= n,
            replace_tilde(s@, h@) == r@ + replace_tilde(s@.skip(i as int), h@),
        decreases n - i,
    {
        let ghost t = s@.skip(i as int);
        let ghost r0 = r@;
        assert(t.drop_first() =~= s@.skip(i + 1));
        assert(t[0] == s@[i as int]);
        if s.get_char(i) == '~' {
            r.append(h);
            assert(r0 + (h@ + replace_tilde(s@.skip(i + 1), h@)) =~= r@ + replace_tilde(
                s@.skip(i + 1),
                h@,
            ));
        } else {
            let one = s.substring_char(i, i + 1);
            assert(one@ =~= seq![s@[i as int]]);
            r.append(one);
            assert(r0 + (seq![s@[i as int]] + replace_tilde(s@.skip(i + 1), h@)) =~= r@
                + replace_tilde(s@.skip(i + 1), h@));
        }
        i = i + 1;
    }
    assert(s@.skip(n as int) =~= Seq::<char>::empty());
    assert(r@ + Seq::<char>::empty() =~= r@);
    r
}

/// Copies of all the words but the first.
fn arguments(toks: &Vec<String>) -> (r: Vec<String>)
    requires
        toks.len() > 0,
    ensures
        views(r@) == views(toks@).skip(1),
{
    let mut r: Vec<String> = Vec::new();
    let mut i: usize = 1;
    while i < toks.len()
        invariant
            1 <= i <= toks.len(),
            views(r@) =~= views(toks@).subrange(1, i as int),
        decreases toks.len() - i,
    {
        let c = toks[i].clone();
        let ghost r0 = r@;
        r.push(c);
        assert(views(r@) =~= views(r0).push(toks@[i as int]@));
        assert(views(toks@).subrange(1, i + 1) =~= views(toks@).subrange(1, i as int).push(
            toks@[i as int]@,
        ));
        i = i + 1;
    }
    r
}

/// Decides what the interpreter does with `line`; `home` is the value of
/// the home directory lookup.
pub fn plan(line: &str, home: Option<&str>) -> (r: Step)
    ensures
        r@ == step_of(words(line@), home),
{
    let toks = tokenize(line);
    if toks.len() == 0 {
        return Step::Respond(String::new());
    }
    let args = arguments(&toks);
    proof {
        assert(views(toks@)[0] == toks@[0]@);
    }
    match Command::lookup(toks[0].as_str()) {
        Some(Command::Echo) => Step::Respond(join_words(args.as_slice())),
        Some(Command::Exit) => Step::Exit,
        Some(Command::Type) => {
            if args.len() == 0 {
                Step::Respond(String::from_str("type: expected an argument of a command name"))
            } else {
                assert(views(args@)[0] == args@[0]@);
                match Command::is_builtin(args[0].as_str()) {
                    Some(d) => Step::Respond(d),
                    None => Step::TypeLookup(args[0].clone()),
                }
            }
        },
        Some(Command::Pwd) => Step::Pwd,
        Some(Command::Cd) => {
            let h: &str = match home {
                Some(h) => h,
                None => "",
            };
            proof {
                reveal_strlit("");
            }
            assert(h@ == home_text(home));
            let target = if args.len() > 0 {
                assert(views(args@)[0] == args@[0]@);
                expand_tilde(args[0].as_str(), h)
            } else {
                String::from_str(h)
            };
            if target.as_str().unicode_len() == 0 {
                Step::Respond(String::from_str("cd: HOME environment variable not set"))
            } else {
                Step::ChangeDir(target)
            }
        },
        None => Step::Run(toks[0].clone(), args),
    }
}

/// The response of `type name`; `resolved` is what the search path gave.
pub fn type_response(name: &str, resolved: Option<String>) -> (r: String)
    ensures
        r@ == type_text(name@, opt_view(resolved)),
{
    match resolved {
        Some(p) => String::from_str(name).concat(" is ").concat(p.as_str()),
        None => String::from_str(name).concat(": not found"),
    }
}

/// The response of `cd` to `target`, given how the change ended.
pub fn cd_response(target: &str, outcome: CdOutcome) -> (r: String)
    ensures
        r@ == cd_text(target@, outcome),
{
    match outcome {
        CdOutcome::Changed => String::new(),
        CdOutcome::NotFound => String::from_str("cd: ").concat(target).concat(
            ": No such file or directory",
        ),
        CdOutcome::PermissionDenied => String::from_str("cd: permission denied: ").concat(target),
        CdOutcome::Other(e) => String::from_str("cd: error changing to ").concat(target).concat(
            ": ",
        ).concat(e.as_str()),
    }
}

/// `s` without one trailing line ending.
pub fn trim_newline(s: &str) -> (r: String)
    ensures
        r@ == trim_line_end(s@),
{
    let n = s.unicode_len();
    if n >= 2 && s.get_char(n - 2) == '\r' && s.get_char(n - 1) == '\n' {
        String::from_str(s.substring_char(0, n - 2))
    } else if n >= 1 && s.get_char(n - 1) == '\n' {
        String::from_str(s.substring_char(0, n - 1))
    } else {
        String::from_str(s)
    }
}

/// The response to running the external command `name`: its output without
/// the last line ending, a notice that it was not found, or an error when it
/// could not be started.
pub fn run_response(name: &str, outcome: RunOutcome) -> (r: Result<String, String>)
    ensures
        match outcome {
            RunOutcome::Unresolved => r is Ok && r->Ok_0@ == name@ + ": command not found"@,
            RunOutcome::Failed => r is Err && r->Err_0@ == name@ + ": failed to execute"@,
            RunOutcome::Finished(out) => r is Ok && r->Ok_0@ == trim_line_end(out@),
        },
{
    match outcome {
        RunOutcome::Unresolved => Ok(String::from_str(name).concat(": command not found")),
        RunOutcome::Failed => Err(String::from_str(name).concat(": failed to execute")),
        RunOutcome::Finished(out) => Ok(trim_newline(out.as_str())),
    }
}

proof fn lemma_blank_words(line: Seq<char>)
    requires
        forall|i: int| 0 <= i < line.len() ==> is_space(#[trigger] line[i]),
    ensures
        words(line) == Seq::<Seq<char>>::empty(),
    decreases line.len(),
{
    if line.len() > 0 {
        let rest = line.drop_first();
        assert forall|i: int| 0 <= i < rest.len() implies is_space(#[trigger] rest[i]) by {
            assert(rest[i] == line[i + 1]);
        }
        lemma_blank_words(rest);
    }
}

/// A line made only of whitespace has no words, and its response is empty
/// without any built-in or external command being tried.
pub proof fn lemma_blank_line_is_silent(line: Seq<char>, home: Option<&str>)
    requires
        forall|i: int| 0 <= i < line.len() ==> is_space(#[trigger] line[i]),
    ensures
        words(line) == Seq::<Seq<char>>::empty(),
        step_of(words(line), home) == StepModel::Respond(Seq::empty()),
{
    lemma_blank_words(line);
}

/// A line whose command is `exit` produces no response: it ends the
/// session, whatever its arguments.
pub proof fn lemma_exit_ends_session(toks: Seq<Seq<char>>, home: Option<&str>)
    requires
        toks.len() > 0,
        toks[0] == "exit"@,
    ensures
        step_of(toks, home) == StepModel::Exit,
{
    reveal_strlit("exit");
    reveal_strlit("echo");
    reveal_strlit("type");
    assert(toks[0][1] != "echo"@[1]);
    assert(toks[0][0] != "type"@[0]);
    assert(builtin_of(toks[0]) == Some(Command::Exit));
}

/// Two `pwd` lines lead to the same step, which changes nothing: with no
/// `cd` between them both respond with the same working directory.
pub proof fn lemma_pwd_is_repeatable(
    first: Seq<Seq<char>>,
    second: Seq<Seq<char>>,
    home1: Option<&str>,
    home2: Option<&str>,
)
    requires
        first.len() > 0,
        second.len() > 0,
        first[0] == "pwd"@,
        second[0] == "pwd"@,
    ensures
        step_of(first, home1) == StepModel::Pwd,
        step_of(first, home1) == step_of(second, home2),
{
    reveal_strlit("pwd");
    reveal_strlit("echo");
    reveal_strlit("type");
    reveal_strlit("exit");
    assert(first[0].len() != "echo"@.len());
}

} // verus!
