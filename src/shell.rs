//! The decisions of a restricted login shell that only runs git's transfer commands.

use crate::repo_path::strings_view;
use crate::text::{chars_of, same_text, string_from_chars};
use vstd::prelude::*;

verus! {

/// Why a single-quoted argument could not be unquoted.
#[derive(Clone, Copy, Debug, PartialEq, Eq, Structural)]
pub enum DequoteError {
    /// The argument does not start with `'`.
    MissingOpeningQuote,
    /// The argument does not end with `'`.
    MissingClosingQuote,
    /// The argument holds a NUL character.
    EmbeddedNul,
    /// A `'` or `!` stands outside an escape.
    Unquoted(char),
}

/// Why the shell refuses to run a command.
#[derive(Clone, Debug, PartialEq, Eq)]
pub enum ShellError {
    /// The command does not start with `git-` or `git `.
    NotGitCommand(String),
    /// The git subcommand is not one that the shell runs.
    Disallowed(String),
    /// The command has no argument.
    MissingArgument,
    /// The argument is not quoted the way git quotes it.
    MalformedArgument(DequoteError),
    /// The shell was started as `cvs server`.
    CvsServer,
    /// The shell was started without a command.
    Interactive,
    /// The shell was started with other arguments.
    InvalidArguments,
}

/// A git subcommand and its unquoted argument.
#[derive(Clone, Debug, PartialEq, Eq)]
pub struct Invocation {
    pub command: String,
    pub argument: String,
}

/// `r` with `prefix` in front of its successful value.
pub open spec fn prefixed(prefix: Seq<char>, r: Result<Seq<char>, DequoteError>) -> Result<Seq<char>, DequoteError> {
    match r {
        Ok(t) => Ok(prefix + t),
        Err(e) => Err(e),
    }
}

/// Whether `s` starts with one of the escapes `'\''` or `'\!'`.
pub open spec fn starts_with_escape(s: Seq<char>) -> bool {
    s.len() >= 4 && s[0] == '\'' && s[1] == '\\' && (s[2] == '\'' || s[2] == '!') && s[3] == '\''
}

/// The text between the outer quotes with every escape replaced by the character it
/// stands for.
pub open spec fn unescape(s: Seq<char>) -> Result<Seq<char>, DequoteError>
    decreases s.len(),
{
    if s.len() == 0 {
        Ok(Seq::empty())
    } else if s[0] == '\0' {
        Err(DequoteError::EmbeddedNul)
    } else if starts_with_escape(s) {
        prefixed(seq![s[2]], unescape(s.skip(4)))
    } else if s[0] == '\'' || s[0] == '!' {
        Err(DequoteError::Unquoted(s[0]))
    } else {
        prefixed(seq![s[0]], unescape(s.skip(1)))
    }
}

/// Undoes git's shell quoting: the whole argument in single quotes, with `'` written
/// as `'\''` and `!` as `'\!'`.
pub open spec fn dequote(s: Seq<char>) -> Result<Seq<char>, DequoteError> {
    if s.len() == 0 || s[0] != '\'' {
        Err(DequoteError::MissingOpeningQuote)
    } else if s.len() < 2 || s.last() != '\'' {
        Err(DequoteError::MissingClosingQuote)
    } else {
        unescape(s.subrange(1, s.len() - 1))
    }
}

/// The position of the first `c` in `s`, if any.
pub open spec fn first_index(s: Seq<char>, c: char) -> Option<int> {
    if s.contains(c) {
        Some(choose|i: int| 0 <= i < s.len() && s[i] == c && forall|j: int| 0 <= j < i ==> s[j] != c)
    } else {
        None
    }
}

/// Whether `s` begins with `p`.
pub open spec fn has_prefix(s: Seq<char>, p: Seq<char>) -> bool {
    p.len() <= s.len() && s.take(p.len() as int) == p
}

/// The subcommands that the shell runs.
pub open spec fn allowed_commands() -> Seq<Seq<char>> {
    seq!["receive-pack"@, "upload-pack"@, "upload-archive"@]
}

fn copy_range(cs: &Vec<char>, from: usize, to: usize) -> (r: Vec<char>)
    requires
        from <= to <= cs@.len(),
    ensures
        r@ == cs@.subrange(from as int, to as int),
{
    let mut r: Vec<char> = Vec::new();
    let mut k: usize = from;
    while k < to
        invariant
            from <= k <= to <= cs@.len(),
            r@ == cs@.subrange(from as int, k as int),
        decreases to - k,
    {
        r.push(cs[k]);
        k = k + 1;
        assert(r@ =~= cs@.subrange(from as int, k as int));
    }
    r
}

fn unescape_exec(cs: &Vec<char>, from: usize, to: usize) -> (r: Result<Vec<char>, DequoteError>)
    requires
        from <= to <= cs@.len(),
    ensures
        match unescape(cs@.subrange(from as int, to as int)) {
            Ok(t) => r is Ok && r->Ok_0@ == t,
            Err(e) => r == Err::<Vec<char>, DequoteError>(e),
        },
{
    let ghost whole = cs@.subrange(from as int, to as int);
    let mut out: Vec<char> = Vec::new();
    let mut i: usize = from;
    assert(prefixed(Seq::empty(), unescape(whole)) == unescape(whole)) by {
        assert(Seq::<char>::empty() + whole =~= whole);
        match unescape(whole) {
            Ok(t) => assert(Seq::<char>::empty() + t =~= t),
            Err(e) => {},
        }
    }
    while i < to
        invariant
            from <= i <= to <= cs@.len(),
            whole == cs@.subrange(from as int, to as int),
            unescape(whole) == prefixed(out@, unescape(cs@.subrange(i as int, to as int))),
        decreases to - i,
    {
        let ghost rest = cs@.subrange(i as int, to as int);
        let c = cs[i];
        if c == '\0' {
            return Err(DequoteError::EmbeddedNul);
        }
        if to - i >= 4 && c == '\'' && cs[i + 1] == '\\' && (cs[i + 2] == '\'' || cs[i + 2] == '!')
            && cs[i + 3] == '\'' {
            assert(starts_with_escape(rest));
            assert(rest.skip(4) =~= cs@.subrange(i + 4, to as int));
            let ghost before = out@;
            out.push(cs[i + 2]);
            assert(prefixed(before, prefixed(seq![cs@[i + 2]], unescape(rest.skip(4))))
                == prefixed(out@, unescape(rest.skip(4)))) by {
                match unescape(rest.skip(4)) {
                    Ok(t) => assert(before + (seq![cs@[i + 2]] + t) =~= out@ + t),
                    Err(e) => {},
                }
            }
            i = i + 4;
        } else if c == '\'' || c == '!' {
            assert(!starts_with_escape(rest));
            return Err(DequoteError::Unquoted(c));
        } else {
            assert(!starts_with_escape(rest));
            assert(rest.skip(1) =~= cs@.subrange(i + 1, to as int));
            let ghost before = out@;
            out.push(c);
            assert(prefixed(before, prefixed(seq![c], unescape(rest.skip(1))))
                == prefixed(out@, unescape(rest.skip(1)))) by {
                match unescape(rest.skip(1)) {
                    Ok(t) => assert(before + (seq![c] + t) =~= out@ + t),
                    Err(e) => {},
                }
            }
            i = i + 1;
        }
    }
    assert(cs@.subrange(i as int, to as int) =~= Seq::<char>::empty());
    assert(out@ + Seq::<char>::empty() =~= out@);
    Ok(out)
}

/// Undoes git's shell quoting of a command argument.
pub fn git_shell_dequote(input: &str) -> (r: Result<String, DequoteError>)
    ensures
        match dequote(input@) {
            Ok(t) => r is Ok && r->Ok_0@ == t,
            Err(e) => r == Err::<String, DequoteError>(e),
        },
{
    let cs = chars_of(input);
    let n = cs.len();
    if n == 0 || cs[0] != '\'' {
        return Err(DequoteError::MissingOpeningQuote);
    }
    if n < 2 || cs[n - 1] != '\'' {
        return Err(DequoteError::MissingClosingQuote);
    }
    match unescape_exec(&cs, 1, n - 1) {
        Ok(out) => Ok(string_from_chars(&out)),
        Err(e) => Err(e),
    }
}

fn find_char(cs: &Vec<char>, c: char) -> (r: Option<usize>)
    ensures
        r matches Some(i) ==> first_index(cs@, c) == Some(i as int) && i < cs@.len(),
        r is None ==> first_index(cs@, c) is None,
{
    let mut i: usize = 0;
    while i < cs.len()
        invariant
            i <= cs@.len(),
            forall|j: int| 0 <= j < i ==> cs@[j] != c,
        decreases cs@.len() - i,
    {
        if cs[i] == c {
            assert(cs@.contains(c));
            let ghost k = first_index(cs@, c)->0;
            assert(k == i as int) by {
                if k < i as int {
                } else if k > i as int {
                }
            }
            return Some(i);
        }
        i = i + 1;
    }
    assert(!cs@.contains(c));
    None
}

fn starts_with_text(cs: &Vec<char>, p: &str) -> (r: bool)
    ensures
        r == has_prefix(cs@, p@),
{
    let pc = chars_of(p);
    if pc.len() > cs.len() {
        return false;
    }
    let mut i: usize = 0;
    while i < pc.len()
        invariant
            pc@ == p@,
            pc@.len() <= cs@.len(),
            i <= pc@.len(),
            forall|j: int| 0 <= j < i ==> cs@[j] == pc@[j],
        decreases pc@.len() - i,
    {
        if cs[i] != pc[i] {
            assert(cs@.take(pc@.len() as int)[i as int] != p@[i as int]);
            return false;
        }
        i = i + 1;
    }
    assert(cs@.take(pc@.len() as int) =~= p@);
    true
}

/// What `standard_commands` makes of a command line: the text before the first space
/// is the subcommand, the text after it the quoted argument.
pub open spec fn split_command(cmd: Seq<char>) -> Result<(Seq<char>, Seq<char>), ShellError> {
    match first_index(cmd, ' ') {
        None => Err(ShellError::MissingArgument),
        Some(i) => match dequote(cmd.subrange(i + 1, cmd.len() as int)) {
            Ok(a) => Ok((cmd.take(i), a)),
            Err(e) => Err(ShellError::MalformedArgument(e)),
        },
    }
}

/// Whether an invocation holds the given subcommand and argument.
pub open spec fn invocation_is(r: Result<Invocation, ShellError>, s: Result<(Seq<char>, Seq<char>), ShellError>) -> bool {
    match s {
        Ok((c, a)) => r is Ok && r->Ok_0.command@ == c && r->Ok_0.argument@ == a,
        Err(e) => r == Err::<Invocation, ShellError>(e),
    }
}

/// Splits a transfer command into the git subcommand and its unquoted argument.
pub fn standard_commands(cmd: &str) -> (r: Result<Invocation, ShellError>)
    ensures
        invocation_is(r, split_command(cmd@)),
{
    let cs = chars_of(cmd);
    let n = cs.len();
    let found = find_char(&cs, ' ');
    match found {
        None => Err(ShellError::MissingArgument),
        Some(i) => {
            assert(i < cs@.len());
            assert(first_index(cmd@, ' ') == Some(i as int));
            let arg = copy_range(&cs, i + 1, n);
            match unescape_quoted(&arg) {
                Ok(a) => {
                    let command = string_from_chars(&copy_range(&cs, 0, i));
                    assert(cs@.subrange(0, i as int) =~= cs@.take(i as int));
                    Ok(Invocation { command, argument: string_from_chars(&a) })
                },
                Err(e) => Err(ShellError::MalformedArgument(e)),
            }
        },
    }
}

fn unescape_quoted(cs: &Vec<char>) -> (r: Result<Vec<char>, DequoteError>)
    ensures
        match dequote(cs@) {
            Ok(t) => r is Ok && r->Ok_0@ == t,
            Err(e) => r == Err::<Vec<char>, DequoteError>(e),
        },
{
    let n = cs.len();
    if n == 0 || cs[0] != '\'' {
        return Err(DequoteError::MissingOpeningQuote);
    }
    if n < 2 || cs[n - 1] != '\'' {
        return Err(DequoteError::MissingClosingQuote);
    }
    unescape_exec(cs, 1, n - 1)
}

/// The subcommand named by the command that follows `-c`, once `git-` or `git ` is
/// taken off.
pub open spec fn subcommand_of(cmd: Seq<char>) -> Option<Seq<char>> {
    if has_prefix(cmd, "git-"@) || has_prefix(cmd, "git "@) {
        Some(cmd.skip(4))
    } else {
        None
    }
}

/// Whether the subcommand starts with one of the allowed commands.
pub open spec fn is_allowed(sub: Seq<char>) -> bool {
    exists|k: int| 0 <= k < allowed_commands().len() && has_prefix(sub, #[trigger] allowed_commands()[k])
}

/// Whether `r` is what the shell decides when started with the arguments `args`
/// (program name first).
pub open spec fn plans(args: Seq<Seq<char>>, r: Result<Invocation, ShellError>) -> bool {
    if args.len() == 3 && args[1] == "-c"@ {
        match subcommand_of(args[2]) {
            None => r matches Err(ShellError::NotGitCommand(c)) && c@ == args[2],
            Some(sub) => if is_allowed(sub) {
                invocation_is(r, split_command(sub))
            } else {
                r matches Err(ShellError::Disallowed(c)) && c@ == sub
            },
        }
    } else if args.len() == 2 && args[1] == "cvs server"@ {
        r == Err::<Invocation, ShellError>(ShellError::CvsServer)
    } else if args.len() == 1 {
        r == Err::<Invocation, ShellError>(ShellError::Interactive)
    } else {
        r == Err::<Invocation, ShellError>(ShellError::InvalidArguments)
    }
}

/// Decides what the shell runs when started with `args` (program name first): only
/// `-c` with a `git-` or `git ` command whose subcommand starts with `receive-pack`,
/// `upload-pack` or `upload-archive`.
pub fn plan_invocation(args: &Vec<String>) -> (r: Result<Invocation, ShellError>)
    ensures
        plans(strings_view(args@), r),
{
    if args.len() == 3 && same_text(args[1].as_str(), "-c") {
        let cmd = args[2].as_str();
        let cs = chars_of(cmd);
        if !(starts_with_text(&cs, "git-") || starts_with_text(&cs, "git ")) {
            return Err(ShellError::NotGitCommand(string_from_chars(&cs)));
        }
        proof {
            reveal_strlit("git-");
            reveal_strlit("git ");
        }
        let sub_chars = copy_range(&cs, 4, cs.len());
        assert(sub_chars@ =~= cs@.skip(4));
        let sub = string_from_chars(&sub_chars);
        let receive = starts_with_text(&sub_chars, "receive-pack");
        let upload = starts_with_text(&sub_chars, "upload-pack");
        let archive = starts_with_text(&sub_chars, "upload-archive");
        let allowed = receive || upload || archive;
        if !allowed {
            assert(!is_allowed(sub_chars@)) by {
                if is_allowed(sub_chars@) {
                    let k = choose|k: int| 0 <= k < allowed_commands().len() && has_prefix(sub_chars@, #[trigger] allowed_commands()[k]);
                    assert(k == 0 || k == 1 || k == 2);
                }
            }
            return Err(ShellError::Disallowed(sub));
        }
        assert(is_allowed(sub_chars@)) by {
            if receive {
                assert(has_prefix(sub_chars@, allowed_commands()[0]));
            } else if upload {
                assert(has_prefix(sub_chars@, allowed_commands()[1]));
            } else {
                assert(has_prefix(sub_chars@, allowed_commands()[2]));
            }
        }
        standard_commands(sub.as_str())
    } else if args.len() == 2 && same_text(args[1].as_str(), "cvs server") {
        Err(ShellError::CvsServer)
    } else if args.len() == 1 {
        Err(ShellError::Interactive)
    } else {
        Err(ShellError::InvalidArguments)
    }
}

} // verus!
