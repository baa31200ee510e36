//! Command-line and environment switches of the application.

use crate::text::{chars_of, join_seqs, str_eq, string_from_chars};
use vstd::prelude::*;

verus! {

/// A developer command given as the first argument.
#[derive(Clone, Copy, Debug, PartialEq, Eq, Structural)]
pub enum DevCommand {
    /// Run the project's checks (format, build, tests, lints, translations).
    Ci,
}

/// The argument views of a list of arguments.
pub open spec fn arg_views(args: Seq<&str>) -> Seq<Seq<char>> {
    args.map_values(|a: &str| a@)
}

/// `dev_command_from_args`: the developer command named by the first
/// argument after the program name.
pub open spec fn dev_command_spec(args: Seq<Seq<char>>) -> Option<DevCommand> {
    if args.len() > 1 && args[1] == "ci"@ {
        Some(DevCommand::Ci)
    } else {
        None
    }
}

/// The developer command, if any, in the program's arguments (the program
/// name first).
pub fn dev_command_from_args(args: &[&str]) -> (r: Option<DevCommand>)
    ensures
        r == dev_command_spec(arg_views(args@)),
{
    if args.len() > 1 && str_eq(args[1], "ci") {
        Some(DevCommand::Ci)
    } else {
        None
    }
}

/// An argument switches developer mode on.
pub open spec fn is_dev_flag(arg: Seq<char>) -> bool {
    arg == "--dev"@ || arg == "dev"@
}

/// Whether any argument switches developer mode on.
pub fn dev_mode_arg_enabled(args: &[&str]) -> (r: bool)
    ensures
        r == exists|i: int| 0 <= i < args@.len() && is_dev_flag(#[trigger] args@[i]@),
{
    let mut i: usize = 0;
    while i < args.len()
        invariant
            i <= args@.len(),
            forall|k: int| 0 <= k < i ==> !is_dev_flag(#[trigger] args@[k]@),
        decreases args@.len() - i,
    {
        if str_eq(args[i], "--dev") || str_eq(args[i], "dev") {
            assert(is_dev_flag(args@[i as int]@));
            return true;
        }
        i = i + 1;
    }
    false
}

/// Whether any argument asks for a minimized start.
pub fn minimized_start_requested(args: &[&str]) -> (r: bool)
    ensures
        r == exists|i: int| 0 <= i < args@.len() && #[trigger] args@[i]@ == "--minimized"@,
{
    let mut i: usize = 0;
    while i < args.len()
        invariant
            i <= args@.len(),
            forall|k: int| 0 <= k < i ==> #[trigger] args@[k]@ != "--minimized"@,
        decreases args@.len() - i,
    {
        if str_eq(args[i], "--minimized") {
            return true;
        }
        i = i + 1;
    }
    false
}

/// The value after the first `--db-path` among the arguments, if both are
/// there.
pub open spec fn db_path_spec(args: Seq<Seq<char>>) -> Option<Seq<char>>
    decreases args.len(),
{
    if args.len() == 0 {
        None
    } else if args[0] == "--db-path"@ {
        if args.len() > 1 {
            Some(args[1])
        } else {
            None
        }
    } else {
        db_path_spec(args.drop_first())
    }
}

/// The database path given by `--db-path <path>` (arguments after the
/// program name).
pub fn db_path_from_args(args: &[&str]) -> (r: Option<String>)
    ensures
        match r {
            Some(p) => db_path_spec(arg_views(args@)) == Some(p@),
            None => db_path_spec(arg_views(args@)) is None,
        },
{
    let ghost v = arg_views(args@);
    let mut i: usize = 0;
    assert(v.subrange(0, v.len() as int) =~= v);
    while i < args.len()
        invariant
            i <= args@.len(),
            v == arg_views(args@),
            db_path_spec(v) == db_path_spec(v.subrange(i as int, v.len() as int)),
        decreases args@.len() - i,
    {
        let ghost t = v.subrange(i as int, v.len() as int);
        assert(t[0] == args@[i as int]@);
        if str_eq(args[i], "--db-path") {
            if i + 1 < args.len() {
                assert(t[1] == args@[i + 1]@);
                let p = chars_of(args[i + 1]);
                return Some(string_from_chars(p.as_slice()));
            }
            return None;
        }
        assert(t.drop_first() =~= v.subrange(i + 1, v.len() as int));
        i = i + 1;
    }
    None
}

/// A value of the developer-mode environment variable that switches it on.
pub open spec fn dev_env_value_spec(value: Seq<char>) -> bool {
    value == "1"@ || value == "true"@ || value == "TRUE"@ || value == "yes"@ || value == "YES"@
}

/// Whether the developer-mode environment variable's value switches it on.
pub fn dev_env_value_enabled(value: &str) -> (r: bool)
    ensures
        r == dev_env_value_spec(value@),
{
    str_eq(value, "1") || str_eq(value, "true") || str_eq(value, "TRUE") || str_eq(value, "yes")
        || str_eq(value, "YES")
}

/// The shell that runs the translation check: bash, else sh, else none.
pub fn ci_interpreter(has_bash: bool, has_sh: bool) -> (r: Option<&'static str>)
    ensures
        has_bash ==> (r matches Some(s) && s@ == "bash"@),
        !has_bash && has_sh ==> (r matches Some(s) && s@ == "sh"@),
        !has_bash && !has_sh ==> r is None,
{
    if has_bash {
        Some("bash")
    } else if has_sh {
        Some("sh")
    } else {
        None
    }
}

/// A command line as shown to the user: the program, then its arguments,
/// separated by spaces.
pub open spec fn command_line(program: Seq<char>, args: Seq<Seq<char>>) -> Seq<char> {
    if args.len() == 0 {
        program
    } else {
        program + seq![' '] + join_seqs(args, ' ')
    }
}

/// See [`command_line`].
pub fn format_command(program: &str, args: &[&str]) -> (r: String)
    ensures
        r@ == command_line(program@, arg_views(args@)),
{
    let mut out = chars_of(program);
    let ghost v = arg_views(args@);
    let mut i: usize = 0;
    while i < args.len()
        invariant
            i <= args@.len(),
            v == arg_views(args@),
            out@ == command_line(program@, v.subrange(0, i as int)),
        decreases args@.len() - i,
    {
        let ghost o0 = out@;
        out.push(' ');
        let a = chars_of(args[i]);
        let mut k: usize = 0;
        while k < a.len()
            invariant
                k <= a@.len(),
                out@ == o0 + seq![' '] + a@.subrange(0, k as int),
            decreases a@.len() - k,
        {
            out.push(a[k]);
            k = k + 1;
            assert(out@ =~= o0 + seq![' '] + a@.subrange(0, k as int));
        }
        proof {
            assert(a@.subrange(0, a@.len() as int) =~= a@);
            let p = v.subrange(0, i + 1);
            assert(p.drop_last() =~= v.subrange(0, i as int));
            assert(p.last() == a@);
            if i == 0 {
                assert(join_seqs(p, ' ') == a@);
            } else {
                assert(o0 + seq![' '] + a@ =~= program@ + seq![' '] + join_seqs(p, ' '));
            }
        }
        i = i + 1;
    }
    assert(v.subrange(0, v.len() as int) =~= v);
    string_from_chars(out.as_slice())
}

/// Law: developer mode is switched on by the arguments `--dev` and `dev`, and
/// by the environment values `1`, `true`, `TRUE`, `yes` and `YES`; values such
/// as `0`, `false`, `no` or an empty one leave it off; `ci` as the first
/// argument after the program name selects the check command.
pub proof fn lemma_developer_switches(prog: Seq<char>)
    ensures
        is_dev_flag("--dev"@),
        is_dev_flag("dev"@),
        !is_dev_flag("--devel"@),
        dev_env_value_spec("1"@),
        dev_env_value_spec("true"@),
        dev_env_value_spec("TRUE"@),
        dev_env_value_spec("yes"@),
        dev_env_value_spec("YES"@),
        !dev_env_value_spec("0"@),
        !dev_env_value_spec("false"@),
        !dev_env_value_spec("no"@),
        !dev_env_value_spec(Seq::empty()),
        dev_command_spec(seq![prog, "ci"@]) == Some(DevCommand::Ci),
        dev_command_spec(seq![prog]) is None,
{
    reveal_strlit("--dev");
    assert("--dev"@ =~= seq!['-', '-', 'd', 'e', 'v']);
    reveal_strlit("dev");
    assert("dev"@ =~= seq!['d', 'e', 'v']);
    reveal_strlit("--devel");
    assert("--devel"@ =~= seq!['-', '-', 'd', 'e', 'v', 'e', 'l']);
    reveal_strlit("1");
    assert("1"@ =~= seq!['1']);
    reveal_strlit("true");
    assert("true"@ =~= seq!['t', 'r', 'u', 'e']);
    reveal_strlit("TRUE");
    assert("TRUE"@ =~= seq!['T', 'R', 'U', 'E']);
    reveal_strlit("yes");
    assert("yes"@ =~= seq!['y', 'e', 's']);
    reveal_strlit("YES");
    assert("YES"@ =~= seq!['Y', 'E', 'S']);
    reveal_strlit("0");
    assert("0"@ =~= seq!['0']);
    reveal_strlit("false");
    assert("false"@ =~= seq!['f', 'a', 'l', 's', 'e']);
    reveal_strlit("no");
    assert("no"@ =~= seq!['n', 'o']);
    reveal_strlit("ci");
    assert("ci"@ =~= seq!['c', 'i']);
    assert("0"@[0] != "1"@[0]);
}

} // verus!
