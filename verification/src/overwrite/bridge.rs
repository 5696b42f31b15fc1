//! Running a plugin's hook: where its interpreter and entry script are,
//! and how the hook's run is judged.

use vstd::prelude::*;

use crate::paths::{join, plugin_entry, plugin_python, venv_python};
use crate::text::{i32_string, signed_decimal, trim, trimmed};

verus! {

/// How long a hook may run, in seconds.
pub const HOOK_TIMEOUT_SECS: u64 = 3;

/// Why a hook gave no configuration.
#[derive(Debug)]
pub enum HookError {
    /// The plugin has no interpreter in its virtual environment.
    PythonMissing(String),
    /// `entry point not found: {path}`.
    EntryMissing(String),
    /// The hook ran past `HOOK_TIMEOUT_SECS` and was killed.
    TimedOut(String),
    /// The hook exited with a failure; holds the hook, its exit code and its
    /// trimmed error output.
    Failed { hook: String, code: i32, stderr: String },
    /// The hook reported an error in its response.
    Returned { hook: String, error: String },
}

impl HookError {
    pub fn message(&self) -> (m: String)
        ensures
            match self {
                HookError::PythonMissing(p) => m@ == "python not found for plugin '"@ + p@
                    + "'; run `bnvr overwrite init "@ + p@ + "` first"@,
                HookError::EntryMissing(e) => m@ == "entry point not found: "@ + e@,
                HookError::TimedOut(h) => m@ == "hook '"@ + h@ + "' timed out after 3s"@,
                HookError::Failed { hook, code, stderr } => m@ == "hook '"@ + hook@ + "' failed (exit "@
                    + signed_decimal(*code as int) + "): "@ + stderr@,
                HookError::Returned { hook, error } => m@ == "hook '"@ + hook@ + "' returned error: "@
                    + error@,
            },
    {
        match self {
            HookError::PythonMissing(p) => {
                let mut m = "python not found for plugin '".to_owned();
                m.append(p.as_str());
                m.append("'; run `bnvr overwrite init ");
                m.append(p.as_str());
                m.append("` first");
                m
            }
            HookError::EntryMissing(e) => {
                let mut m = "entry point not found: ".to_owned();
                m.append(e.as_str());
                m
            }
            HookError::TimedOut(h) => {
                let mut m = "hook '".to_owned();
                m.append(h.as_str());
                m.append("' timed out after 3s");
                m
            }
            HookError::Failed { hook, code, stderr } => {
                let mut m = "hook '".to_owned();
                m.append(hook.as_str());
                m.append("' failed (exit ");
                let c = i32_string(*code);
                m.append(c.as_str());
                m.append("): ");
                m.append(stderr.as_str());
                m
            }
            HookError::Returned { hook, error } => {
                let mut m = "hook '".to_owned();
                m.append(hook.as_str());
                m.append("' returned error: ");
                m.append(error.as_str());
                m
            }
        }
    }
}

/// The interpreter and entry script a plugin's hooks run with.
#[derive(Debug)]
pub struct HookFiles {
    pub python: String,
    pub entry: String,
}

/// Where a plugin's hooks are run from: the interpreter of its virtual
/// environment and its entry script.
pub fn hook_files(home: &str, plugin_name: &str, windows: bool) -> (r: HookFiles)
    ensures
        r.python@ == venv_python(join(join(join(home@, "overwrite"@), plugin_name@), ".venv"@), windows),
        r.entry@ == join(join(join(home@, "overwrite"@), plugin_name@), "overwrite.py"@),
{
    HookFiles { python: plugin_python(home, plugin_name, windows), entry: plugin_entry(home, plugin_name) }
}

/// Checks that both files exist (as the file system reports): the
/// interpreter first, then the entry script.
pub fn check_hook_files(plugin_name: &str, files: &HookFiles, python_exists: bool, entry_exists: bool) -> (r: Result<(), HookError>)
    ensures
        r is Ok <==> python_exists && entry_exists,
        !python_exists ==> (r matches Err(HookError::PythonMissing(p)) && p@ == plugin_name@),
        python_exists && !entry_exists ==> (r matches Err(HookError::EntryMissing(e)) && e@ == files.entry@),
{
    if !python_exists {
        return Err(HookError::PythonMissing(plugin_name.to_owned()));
    }
    if !entry_exists {
        return Err(HookError::EntryMissing(files.entry.clone()));
    }
    Ok(())
}

/// The failure of a hook that ran past its time.
pub fn hook_timed_out(hook: &str) -> (r: HookError)
    ensures
        r matches HookError::TimedOut(h) && h@ == hook@,
{
    HookError::TimedOut(hook.to_owned())
}

/// Judges how a hook's process ended: a failure carries its exit code
/// (`-1` where it has none) and its trimmed error output.
pub fn check_exit(hook: &str, success: bool, code: Option<i32>, stderr: &str) -> (r: Result<(), HookError>)
    ensures
        success <==> r is Ok,
        !success ==> (r matches Err(HookError::Failed { hook: h, code: c, stderr: e }) && h@ == hook@
            && c == (match code {
                Some(c) => c,
                None => -1i32,
            }) && e@ == trim(stderr@)),
{
    if success {
        return Ok(());
    }
    let c = match code {
        Some(c) => c,
        None => -1,
    };
    Err(HookError::Failed { hook: hook.to_owned(), code: c, stderr: trimmed(stderr) })
}

/// A hexadecimal digit, lower case, of a value below 16.
pub open spec fn hex_digit(n: int) -> char {
    if n < 10 {
        (48 + n) as char
    } else {
        (87 + n) as char
    }
}

/// How JSON writes one character inside a string: quote and backslash
/// behind a backslash, the controls with a short escape where JSON has one
/// and as `\u00XX` otherwise, every other character as it is.
pub open spec fn json_char(c: char) -> Seq<char> {
    if c == '"' {
        seq!['\\', '"']
    } else if c == '\\' {
        seq!['\\', '\\']
    } else if c == '\u{8}' {
        seq!['\\', 'b']
    } else if c == '\t' {
        seq!['\\', 't']
    } else if c == '\n' {
        seq!['\\', 'n']
    } else if c == '\u{c}' {
        seq!['\\', 'f']
    } else if c == '\r' {
        seq!['\\', 'r']
    } else if (c as int) < 32 {
        seq!['\\', 'u', '0', '0', hex_digit((c as int) / 16), hex_digit((c as int) % 16)]
    } else {
        seq![c]
    }
}

/// The characters of `s` as JSON writes them inside a string.
pub open spec fn json_escaped(s: Seq<char>) -> Seq<char>
    decreases s.len(),
{
    if s.len() == 0 {
        Seq::empty()
    } else {
        json_escaped(s.drop_last()) + json_char(s.last())
    }
}

/// `s` as a JSON string: quoted, its characters escaped.
pub open spec fn json_quoted(s: Seq<char>) -> Seq<char> {
    seq!['"'] + json_escaped(s) + seq!['"']
}

/// `serde_json::to_string` of a string slice. Its contract states what the
/// crate's string writer produces: the text in quotes, with `"` and `\`
/// escaped, the controls below U+0020 written as `\b`, `\t`, `\n`, `\f`,
/// `\r` or `\u00XX` (lower-case hex), every other character unchanged.
/// Writing a string slice does not fail.
#[verifier::external_body]
fn json_quote(s: &str) -> (r: String)
    ensures
        r@ == json_quoted(s@),
{
    serde_json::to_string(s).unwrap_or_default()
}

/// The request written to a hook: the JSON object with the hook's name,
/// the configuration and, where there is one, the extra argument, given as
/// their JSON texts.
pub open spec fn hook_request_text(hook: Seq<char>, config: Seq<char>, extra: Option<Seq<char>>) -> Seq<char> {
    "{\"hook\":"@ + json_quoted(hook) + ",\"config\":"@ + config + (match extra {
        Some(e) => ",\"extra\":"@ + e,
        None => Seq::empty(),
    }) + "}"@
}

/// See `hook_request_text`. `extra_json` is absent where the extra argument
/// is null.
pub fn hook_request(hook: &str, config_json: &str, extra_json: Option<&str>) -> (r: String)
    ensures
        r@ == hook_request_text(hook@, config_json@, match extra_json {
            Some(e) => Some(e@),
            None => None,
        }),
{
    let mut r = "{\"hook\":".to_owned();
    let q = json_quote(hook);
    r.append(q.as_str());
    r.append(",\"config\":");
    r.append(config_json);
    match extra_json {
        Some(e) => {
            r.append(",\"extra\":");
            r.append(e);
        }
        None => {}
    }
    r.append("}");
    r
}

/// Judges a finished hook run: a failed exit fails the hook (see
/// `check_exit`); otherwise the trimmed standard output is the response
/// to read.
pub fn hook_output(hook: &str, success: bool, code: Option<i32>, stderr: &str, stdout: &str) -> (r: Result<String, HookError>)
    ensures
        success <==> r is Ok,
        r matches Ok(t) ==> t@ == trim(stdout@),
        !success ==> (r matches Err(HookError::Failed { hook: h, code: c, stderr: e }) && h@ == hook@
            && c == (match code {
                Some(c) => c,
                None => -1i32,
            }) && e@ == trim(stderr@)),
{
    check_exit(hook, success, code, stderr)?;
    Ok(trimmed(stdout))
}

/// Judges a hook's response: an error it reports fails the hook.
pub fn check_response(hook: &str, error: Option<String>) -> (r: Result<(), HookError>)
    ensures
        match error {
            None => r is Ok,
            Some(e) => r matches Err(HookError::Returned { hook: h, error: e2 }) && h@ == hook@ && e2 == e,
        },
{
    match error {
        None => Ok(()),
        Some(e) => Err(HookError::Returned { hook: hook.to_owned(), error: e }),
    }
}

} // verus!
