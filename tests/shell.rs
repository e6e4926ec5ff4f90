use gitsite::{git_shell_dequote, plan_invocation, standard_commands, DequoteError, ShellError};

fn args(s: &[&str]) -> Vec<String> {
    s.iter().map(|x| x.to_string()).collect()
}

#[test]
fn dequote_plain_name() {
    assert_eq!(git_shell_dequote("'name'").unwrap(), "name");
    assert_eq!(git_shell_dequote("'a b'").unwrap(), "a b");
    assert_eq!(git_shell_dequote("''").unwrap(), "");
}

#[test]
fn dequote_escapes() {
    assert_eq!(git_shell_dequote("'a'\\''b'").unwrap(), "a'b");
    assert_eq!(git_shell_dequote("'a'\\!'b'").unwrap(), "a!b");
    assert_eq!(git_shell_dequote("'é'\\''ü'").unwrap(), "é'ü");
}

#[test]
fn dequote_errors() {
    assert_eq!(git_shell_dequote("name'"), Err(DequoteError::MissingOpeningQuote));
    assert_eq!(git_shell_dequote(""), Err(DequoteError::MissingOpeningQuote));
    assert_eq!(git_shell_dequote("'name"), Err(DequoteError::MissingClosingQuote));
    assert_eq!(git_shell_dequote("'"), Err(DequoteError::MissingClosingQuote));
    assert_eq!(git_shell_dequote("'a\0b'"), Err(DequoteError::EmbeddedNul));
    assert_eq!(git_shell_dequote("'a'b'"), Err(DequoteError::Unquoted('\'')));
    assert_eq!(git_shell_dequote("'a!b'"), Err(DequoteError::Unquoted('!')));
}

#[test]
fn standard_command_is_split() {
    let inv = standard_commands("upload-pack 'repo.git'").unwrap();
    assert_eq!(inv.command, "upload-pack");
    assert_eq!(inv.argument, "repo.git");
    assert_eq!(standard_commands("upload-pack"), Err(ShellError::MissingArgument));
    assert_eq!(
        standard_commands("upload-pack repo"),
        Err(ShellError::MalformedArgument(DequoteError::MissingOpeningQuote))
    );
}

#[test]
fn shell_runs_allowed_commands_only() {
    let inv = plan_invocation(&args(&["git-shell", "-c", "git-receive-pack 'my repo'"])).unwrap();
    assert_eq!(inv.command, "receive-pack");
    assert_eq!(inv.argument, "my repo");
    let inv = plan_invocation(&args(&["git-shell", "-c", "git upload-archive '/srv/x'"])).unwrap();
    assert_eq!(inv.command, "upload-archive");
    assert_eq!(
        plan_invocation(&args(&["git-shell", "-c", "ls -la"])),
        Err(ShellError::NotGitCommand("ls -la".to_string()))
    );
    assert_eq!(
        plan_invocation(&args(&["git-shell", "-c", "git-config 'x'"])),
        Err(ShellError::Disallowed("config 'x'".to_string()))
    );
}

#[test]
fn shell_refuses_other_invocations() {
    assert_eq!(plan_invocation(&args(&["git-shell"])), Err(ShellError::Interactive));
    assert_eq!(plan_invocation(&args(&["git-shell", "cvs server"])), Err(ShellError::CvsServer));
    assert_eq!(plan_invocation(&args(&["git-shell", "-x"])), Err(ShellError::InvalidArguments));
    assert_eq!(plan_invocation(&args(&[])), Err(ShellError::InvalidArguments));
}
