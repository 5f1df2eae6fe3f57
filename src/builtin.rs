//! The builtin commands: which keywords name one, and what each asks the
//! shell to do.

use vstd::prelude::*;
use vstd::string::StringExecFns;
use crate::text::same_text;

verus! {

/// How a segment ended: only used to decide what to report to the user.
#[derive(Debug, Clone, Copy, PartialEq, Eq, Structural)]
pub enum ErrCode {
    Success,
    Error,
}

/// The commands that run inside the shell instead of in a child process.
#[derive(Debug, Clone, Copy, PartialEq, Eq, Structural)]
pub enum Builtin {
    Echo,
    History,
    Cd,
    Pwd,
}

/// The builtin that keyword `k` names, if any.
pub open spec fn builtin_of(k: Seq<char>) -> Option<Builtin> {
    if k == seq!['e', 'c', 'h', 'o'] {
        Some(Builtin::Echo)
    } else if k == seq!['h', 'i', 's', 't', 'o', 'r', 'y'] {
        Some(Builtin::History)
    } else if k == seq!['c', 'd'] {
        Some(Builtin::Cd)
    } else if k == seq!['p', 'w', 'd'] {
        Some(Builtin::Pwd)
    } else {
        None
    }
}

impl std::str::FromStr for Builtin {
    type Err = ();

    /// The builtin that `s` names, or `Err(())` for an external command.
    fn from_str(s: &str) -> Result<Builtin, ()> {
        match Builtin::from_keyword(s) {
            Some(b) => Ok(b),
            None => Err(()),
        }
    }
}

/// `ws` joined by single spaces.
pub open spec fn join_spaces(ws: Seq<Seq<char>>) -> Seq<char>
    decreases ws.len(),
{
    if ws.len() == 0 {
        Seq::empty()
    } else if ws.len() == 1 {
        ws[0]
    } else {
        join_spaces(ws.drop_last()) + seq![' '] + ws.last()
    }
}

/// What `echo` writes: its arguments joined by single spaces, and a line break.
pub open spec fn echo_text(args: Seq<Seq<char>>) -> Seq<char> {
    join_spaces(args) + seq!['\n']
}

/// The home directory's path, or the root directory where none is known.
pub open spec fn home_text(home: Option<String>) -> Seq<char> {
    match home {
        Some(h) => h@,
        None => seq!['/'],
    }
}

/// Where `cd` goes: its first argument, else the home directory, else the root.
pub open spec fn cd_target_text(args: Seq<Seq<char>>, home: Option<String>) -> Seq<char> {
    if args.len() > 0 {
        args[0]
    } else {
        home_text(home)
    }
}

/// Path of the history file in the home directory (or in the root).
pub open spec fn history_path_text(home: Option<String>) -> Seq<char> {
    home_text(home) + seq!['/', '.', 's', 'h', 'a', 'd', 'o', 'h', 'i', 's', 't']
}

impl Builtin {
    /// The builtin that keyword `k` names, or `None` for an external command.
    pub fn from_keyword(k: &str) -> (r: Option<Builtin>)
        ensures
            r == builtin_of(k@),
    {
        proof {
            reveal_strlit("echo");
            reveal_strlit("history");
            reveal_strlit("cd");
            reveal_strlit("pwd");
            assert("echo"@ =~= seq!['e', 'c', 'h', 'o']);
            assert("history"@ =~= seq!['h', 'i', 's', 't', 'o', 'r', 'y']);
            assert("cd"@ =~= seq!['c', 'd']);
            assert("pwd"@ =~= seq!['p', 'w', 'd']);
        }
        if same_text(k, "echo") {
            Some(Builtin::Echo)
        } else if same_text(k, "history") {
            Some(Builtin::History)
        } else if same_text(k, "cd") {
            Some(Builtin::Cd)
        } else if same_text(k, "pwd") {
            Some(Builtin::Pwd)
        } else {
            None
        }
    }
}

/// The text `echo` writes for `args`.
pub fn echo_output(args: &Vec<String>) -> (r: String)
    ensures
        r@ == echo_text(args.deep_view()),
{
    let mut out = String::new();
    let mut i: usize = 0;
    assert(args.deep_view().take(0) == Seq::<Seq<char>>::empty());
    while i < args.len()
        invariant
            i <= args.len(),
            out@ == join_spaces(args.deep_view().take(i as int)),
        decreases args.len() - i,
    {
        let ghost before = args.deep_view().take(i as int);
        assert(args.deep_view().take(i + 1).drop_last() == before);
        assert(args.deep_view()[i as int] == args[i as int]@);
        if i > 0 {
            proof {
                reveal_strlit(" ");
                assert(" "@ =~= seq![' ']);
            }
            out.append(" ");
        }
        out.append(args[i].as_str());
        assert(out@ =~= join_spaces(args.deep_view().take(i + 1)));
        i = i + 1;
    }
    assert(args.deep_view().take(args.len() as int) == args.deep_view());
    proof {
        reveal_strlit("\n");
        assert("\n"@ =~= seq!['\n']);
    }
    out.append("\n");
    out
}

/// The home directory, or the root directory where `home` is `None`.
pub fn home_or_root(home: Option<String>) -> (r: String)
    ensures
        r@ == home_text(home),
{
    proof {
        reveal_strlit("/");
    }
    match home {
        Some(h) => h,
        None => String::from_str("/"),
    }
}

/// Where `cd` with `args` goes, given the home directory `home`.
pub fn cd_target(args: &Vec<String>, home: Option<String>) -> (r: String)
    ensures
        r@ == cd_target_text(args.deep_view(), home),
{
    if args.len() > 0 {
        assert(args.deep_view()[0] == args[0]@);
        args[0].clone()
    } else {
        home_or_root(home)
    }
}

/// Path of the history file, given the home directory `home`.
pub fn history_path(home: Option<String>) -> (r: String)
    ensures
        r@ == history_path_text(home),
{
    proof {
        reveal_strlit("/");
        reveal_strlit(".shadohist");
    }
    let mut p = home_or_root(home);
    p.append("/");
    p.append(".shadohist");
    p
}

/// Relies on `home::home_dir`: the current user's home directory, if one can
/// be found, as text. What comes back depends on the environment, so nothing
/// is stated of it.
#[verifier::external_body]
fn home_dir() -> (r: Option<String>) {
    home::home_dir().map(|p| p.display().to_string())
}

/// Where `cd` with `args` goes: its first argument if there is one, else the
/// user's home directory as found now, else the root.
pub fn cd_destination(args: &Vec<String>) -> (r: String)
    ensures
        exists|h: Option<String>| r@ == cd_target_text(args.deep_view(), h),
        args.len() > 0 ==> r@ == args[0]@,
{
    let home = home_dir();
    let r = cd_target(args, home);
    assert(args.len() > 0 ==> args.deep_view()[0] == args[0]@);
    r
}

/// Path of the history file in the user's home directory as found now.
pub fn history_location() -> (r: String)
    ensures
        exists|h: Option<String>| r@ == history_path_text(h),
{
    let home = home_dir();
    history_path(home)
}

} // verus!
