//! Git commands run inside a plugin's directory: which directory, and what
//! their output is reported as.

use vstd::prelude::*;

use crate::paths::{join, plugin_dir};
use crate::text::{i32_string, signed_decimal};

verus! {

/// Why a Git command in a plugin's directory failed.
#[derive(Debug)]
pub enum GitError {
    /// `plugin not found: {name}`.
    NotFound(String),
    /// No plugin is active.
    NoActive,
    /// `git exited with code {code}: {output}`.
    Failed { code: i32, output: String },
}

impl GitError {
    pub fn message(&self) -> (m: String)
        ensures
            match self {
                GitError::NotFound(n) => m@ == "plugin not found: "@ + n@,
                GitError::NoActive => m@ == "no active plugin (use `bnvr overwrite use <name>`)"@,
                GitError::Failed { code, output } => m@ == "git exited with code "@ + signed_decimal(
                    *code as int,
                ) + ": "@ + output@,
            },
    {
        match self {
            GitError::NotFound(n) => {
                let mut m = "plugin not found: ".to_owned();
                m.append(n.as_str());
                m
            }
            GitError::NoActive => "no active plugin (use `bnvr overwrite use <name>`)".to_owned(),
            GitError::Failed { code, output } => {
                let mut m = "git exited with code ".to_owned();
                let c = i32_string(*code);
                m.append(c.as_str());
                m.append(": ");
                m.append(output.as_str());
                m
            }
        }
    }
}

/// The directory a Git command for `plugin_name` runs in, where the plugin
/// exists (`plugin_exists`, as the file system reports for that directory).
pub fn run_git(home: &str, plugin_name: &str, plugin_exists: bool) -> (r: Result<String, GitError>)
    ensures
        plugin_exists ==> (r matches Ok(d) && d@ == join(join(home@, "overwrite"@), plugin_name@)),
        !plugin_exists ==> (r matches Err(GitError::NotFound(n)) && n@ == plugin_name@),
{
    if !plugin_exists {
        return Err(GitError::NotFound(plugin_name.to_owned()));
    }
    Ok(plugin_dir(home, plugin_name))
}

/// The plugin whose directory a Git command runs in when none is named:
/// the active one.
pub fn run_git_active(active: Option<String>) -> (r: Result<String, GitError>)
    ensures
        match active {
            Some(a) => r matches Ok(n) && n == a,
            None => r matches Err(GitError::NoActive),
        },
{
    match active {
        Some(a) => Ok(a),
        None => Err(GitError::NoActive),
    }
}

/// What a Git command printed, as it is reported: its standard output,
/// then its error output, separated by a line break where both are there.
pub open spec fn combined_output(stdout: Seq<char>, stderr: Seq<char>) -> Seq<char> {
    if stderr.len() == 0 {
        stdout
    } else if stdout.len() == 0 {
        stderr
    } else {
        stdout + "\n"@ + stderr
    }
}

/// The outcome of a Git command that ran: its combined output where it
/// succeeded, else a failure with its exit code (`-1` where it has none,
/// as when a signal ended it).
pub fn git_result(stdout: &str, stderr: &str, success: bool, code: Option<i32>) -> (r: Result<String, GitError>)
    ensures
        success ==> (r matches Ok(o) && o@ == combined_output(stdout@, stderr@)),
        !success ==> (r matches Err(GitError::Failed { code: c, output: o })
            && c == (match code {
                Some(c) => c,
                None => -1i32,
            }) && o@ == combined_output(stdout@, stderr@)),
{
    let mut result = String::new();
    if stdout.unicode_len() > 0 {
        result.append(stdout);
    }
    if stderr.unicode_len() > 0 {
        if result.as_str().unicode_len() > 0 {
            result.append("\n");
        }
        result.append(stderr);
    }
    if !success {
        let c = match code {
            Some(c) => c,
            None => -1,
        };
        return Err(GitError::Failed { code: c, output: result });
    }
    Ok(result)
}

} // verus!
