//! Where commands run: on the router itself, or from another machine
//! through `ssh`; and the shell commands that read and write the router's
//! files and drive its services.

use vstd::prelude::*;
use crate::error::Error;
use crate::text::{lowercase, replace, replaced, same, to_lowercase};

verus! {

/// What a finished shell command left behind.
#[derive(Debug, Clone)]
pub struct ShellOutput {
    /// Whether the command exited with status zero.
    pub success: bool,
    /// What it wrote to standard output.
    pub stdout: String,
    /// What it wrote to standard error.
    pub stderr: String,
}

/// Whether a command was run and exited with status zero; `None` stands
/// for a command that could not be run.
pub fn succeeded(output: Option<&ShellOutput>) -> (b: bool)
    ensures
        b == (output matches Some(o) && o.success),
{
    match output {
        Some(o) => o.success,
        None => false,
    }
}

/// A program and the arguments to start it with.
#[derive(Debug, Clone)]
pub struct Invocation {
    pub program: String,
    pub args: Vec<String>,
}

/// `hostname::get`: the name that the system reports for this machine, or
/// `None` where the system call fails. The name is read from the machine, so
/// nothing is claimed of it.
#[verifier::external_body]
fn host_name() -> (r: Option<String>) {
    match hostname::get() {
        Ok(name) => Some(name.to_string_lossy().into_owned()),
        Err(_) => None,
    }
}

/// Whether `lowered`, a machine's name in lower case, is the router's.
pub fn names_router(lowered: &str) -> (b: bool)
    ensures
        b == (lowered@ == "shannon"@),
{
    same(lowered, "shannon")
}

/// Whether a machine that reports the name `host` is the router: its name,
/// in lower case, is `shannon`. A machine that reports no name is not.
pub fn is_router(host: Option<&str>) -> (b: bool)
    ensures
        b == (host matches Some(name) && lowercase(name@) == "shannon"@),
{
    match host {
        Some(name) => {
            let lower = to_lowercase(name);
            names_router(lower.as_str())
        },
        None => false,
    }
}

/// Whether this program runs on the router itself.
pub fn is_local() -> bool {
    match host_name() {
        Some(name) => is_router(Some(name.as_str())),
        None => is_router(None),
    }
}

/// How to run the shell command `cmd`: through `sh -c` on the router,
/// through `ssh shannon` elsewhere.
pub fn shell_invocation(local: bool, cmd: &str) -> (r: Invocation)
    ensures
        r.program@ == if local { "sh"@ } else { "ssh"@ },
        r.args.deep_view() == if local { seq!["-c"@, cmd@] } else { seq!["shannon"@, cmd@] },
{
    let mut args: Vec<String> = Vec::new();
    if local {
        args.push(String::from_str("-c"));
        args.push(String::from_str(cmd));
        assert(args.deep_view() =~= seq!["-c"@, cmd@]);
        Invocation { program: String::from_str("sh"), args }
    } else {
        args.push(String::from_str("shannon"));
        args.push(String::from_str(cmd));
        assert(args.deep_view() =~= seq!["shannon"@, cmd@]);
        Invocation { program: String::from_str("ssh"), args }
    }
}

/// `content` as it stands between single quotes in a shell command: each
/// single quote closes the quotation, stands escaped, and opens it again.
pub open spec fn quoted(content: Seq<char>) -> Seq<char> {
    replaced(content, '\'', "'\\''"@)
}

/// The command that prints the file at `path`.
pub fn read_file_command(path: &str) -> (r: String)
    ensures
        r@ == "cat "@ + path@,
{
    let mut out = String::from_str("cat ");
    out.append(path);
    out
}

/// What reading the file at `path` gave, from the output of its command:
/// the file's content, or the failure.
pub fn read_file(path: &str, output: &ShellOutput) -> (r: Result<String, Error>)
    ensures
        output.success ==> (r matches Ok(content) && content@ == output.stdout@),
        !output.success ==> (r matches Err(Error::Read { path: p, stderr }) && p@ == path@
            && stderr@ == output.stderr@),
{
    if output.success {
        Ok(output.stdout.clone())
    } else {
        Err(Error::Read { path: String::from_str(path), stderr: output.stderr.clone() })
    }
}

/// The command that replaces the content of the file at `path` by `content`.
pub fn write_file_command(path: &str, content: &str) -> (r: String)
    ensures
        r@ == "printf '%s' '"@ + quoted(content@) + "' > "@ + path@,
{
    let escaped = replace(content, '\'', "'\\''");
    let mut out = String::from_str("printf '%s' '");
    out.append(escaped.as_str());
    out.append("' > ");
    out.append(path);
    out
}

/// Whether writing the file at `path` went through, from the output of its
/// command.
pub fn write_file(path: &str, output: &ShellOutput) -> (r: Result<(), Error>)
    ensures
        output.success ==> r is Ok,
        !output.success ==> (r matches Err(Error::Write { path: p, stderr }) && p@ == path@
            && stderr@ == output.stderr@),
{
    if output.success {
        Ok(())
    } else {
        Err(Error::Write { path: String::from_str(path), stderr: output.stderr.clone() })
    }
}

/// The command that appends `content` to the file at `path`.
pub fn append_file_command(path: &str, content: &str) -> (r: String)
    ensures
        r@ == "printf '%s' '"@ + quoted(content@) + "' >> "@ + path@,
{
    let escaped = replace(content, '\'', "'\\''");
    let mut out = String::from_str("printf '%s' '");
    out.append(escaped.as_str());
    out.append("' >> ");
    out.append(path);
    out
}

/// Whether appending to the file at `path` went through, from the output of
/// its command.
pub fn append_file(path: &str, output: &ShellOutput) -> (r: Result<(), Error>)
    ensures
        output.success ==> r is Ok,
        !output.success ==> (r matches Err(Error::Append { path: p, stderr }) && p@ == path@
            && stderr@ == output.stderr@),
{
    if output.success {
        Ok(())
    } else {
        Err(Error::Append { path: String::from_str(path), stderr: output.stderr.clone() })
    }
}

/// The command that has `systemctl` carry out `action` on `service`.
pub fn systemctl_command(action: &str, service: &str) -> (r: String)
    ensures
        r@ == "systemctl "@ + action@ + " "@ + service@,
{
    let mut out = String::from_str("systemctl ");
    out.append(action);
    out.append(" ");
    out.append(service);
    out
}

/// Whether `systemctl` carried out `action` on `service`, from the output
/// of its command.
pub fn systemctl(action: &str, service: &str, output: &ShellOutput) -> (r: Result<(), Error>)
    ensures
        output.success ==> r is Ok,
        !output.success ==> (r matches Err(Error::Systemctl { action: a, service: s, stderr })
            && a@ == action@ && s@ == service@ && stderr@ == output.stderr@),
{
    if output.success {
        Ok(())
    } else {
        Err(
            Error::Systemctl {
                action: String::from_str(action),
                service: String::from_str(service),
                stderr: output.stderr.clone(),
            },
        )
    }
}

} // verus!
