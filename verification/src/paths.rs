//! Where the program keeps its files, below its home directory. A path is
//! a string; its parts are joined with `/`.

use vstd::prelude::*;

verus! {

/// `base` joined with `part`: a `/` is put between them unless `base` is
/// empty or already ends with one.
pub open spec fn join(base: Seq<char>, part: Seq<char>) -> Seq<char> {
    if base.len() == 0 || base.last() == '/' {
        base + part
    } else {
        base + "/"@ + part
    }
}

/// `base` joined with `part` (see `join`).
pub fn join_path(base: &str, part: &str) -> (r: String)
    ensures
        r@ == join(base@, part@),
{
    let mut r = base.to_owned();
    let n = base.unicode_len();
    if n > 0 && base.get_char(n - 1) != '/' {
        r.append("/");
    }
    r.append(part);
    r
}

/// `dirs::home_dir`: the user's home directory as the environment gives
/// it, as text. What it is depends on the machine and its settings, so
/// nothing is stated of it.
#[verifier::external_body]
pub(crate) fn user_home_dir() -> (r: Option<String>) {
    dirs::home_dir().map(|p| p.to_string_lossy().into_owned())
}

/// The program's home from the `BNVR_HOME` setting and the user's home
/// directory as it was looked up: `custom` where it is given, else `.bnvr`
/// in the user's home where that is known, else none.
pub fn home_or(custom: Option<&str>, user_home: Option<String>) -> (r: Option<String>)
    ensures
        match custom {
            Some(c) => r matches Some(h) && h@ == c@,
            None => match user_home {
                Some(u) => r matches Some(h) && h@ == join(u@, ".bnvr"@),
                None => r is None,
            },
        },
{
    match custom {
        Some(c) => Some(c.to_owned()),
        None => match user_home {
            Some(u) => Some(join_path(u.as_str(), ".bnvr")),
            None => None,
        },
    }
}

/// The program's home: `custom` (the `BNVR_HOME` setting) where it is
/// given, else `.bnvr` in the user's home directory; none where neither is
/// known. The home directory is looked up only where no setting is given;
/// `home_or` says what follows from each answer.
pub fn bnvr_home(custom: Option<&str>) -> (r: Option<String>)
    ensures
        match custom {
            Some(c) => r matches Some(h) && h@ == c@,
            None => r matches Some(h) ==> exists|u: Seq<char>| h@ == #[trigger] join(u, ".bnvr"@),
        },
{
    match custom {
        Some(c) => home_or(Some(c), None),
        None => {
            let user = user_home_dir();
            let ghost looked_up = user;
            let r = home_or(None, user);
            proof {
                if let Some(u) = looked_up {
                    assert(r->Some_0@ == join(u@, ".bnvr"@));
                }
            }
            r
        }
    }
}

pub fn pid_file(home: &str) -> (r: String)
    ensures
        r@ == join(home@, "bnvr.pid"@),
{
    join_path(home, "bnvr.pid")
}

pub fn db_file(home: &str) -> (r: String)
    ensures
        r@ == join(home@, "bnvr.db"@),
{
    join_path(home, "bnvr.db")
}

pub fn log_dir(home: &str) -> (r: String)
    ensures
        r@ == join(home@, "logs"@),
{
    join_path(home, "logs")
}

pub fn kernels_dir(home: &str) -> (r: String)
    ensures
        r@ == join(home@, "kernels"@),
{
    join_path(home, "kernels")
}

/// The file that names the active kernel version.
pub fn active_kernel_file(home: &str) -> (r: String)
    ensures
        r@ == join(join(home@, "kernels"@), ".active"@),
{
    let dir = kernels_dir(home);
    join_path(dir.as_str(), ".active")
}

pub fn kernel_version_dir(home: &str, version: &str) -> (r: String)
    ensures
        r@ == join(join(home@, "kernels"@), version@),
{
    let dir = kernels_dir(home);
    join_path(dir.as_str(), version)
}

/// The kernel executable's file name: `mihomo.exe` on Windows, else `mihomo`.
pub open spec fn kernel_binary_name(windows: bool) -> Seq<char> {
    if windows {
        "mihomo.exe"@
    } else {
        "mihomo"@
    }
}

pub fn kernel_binary_file_name(windows: bool) -> (r: &'static str)
    ensures
        r@ == kernel_binary_name(windows),
{
    if windows {
        "mihomo.exe"
    } else {
        "mihomo"
    }
}

/// The kernel executable inside the directory `dir`.
pub fn kernel_binary_in_dir(dir: &str, windows: bool) -> (r: String)
    ensures
        r@ == join(dir@, kernel_binary_name(windows)),
{
    join_path(dir, kernel_binary_file_name(windows))
}

pub fn kernel_binary_path(home: &str, version: &str, windows: bool) -> (r: String)
    ensures
        r@ == join(join(join(home@, "kernels"@), version@), kernel_binary_name(windows)),
{
    let dir = kernel_version_dir(home, version);
    kernel_binary_in_dir(dir.as_str(), windows)
}

pub fn overwrite_dir(home: &str) -> (r: String)
    ensures
        r@ == join(home@, "overwrite"@),
{
    join_path(home, "overwrite")
}

/// The file that names the active plugin.
pub fn active_plugin_file(home: &str) -> (r: String)
    ensures
        r@ == join(join(home@, "overwrite"@), ".active"@),
{
    let dir = overwrite_dir(home);
    join_path(dir.as_str(), ".active")
}

pub fn plugin_dir(home: &str, name: &str) -> (r: String)
    ensures
        r@ == join(join(home@, "overwrite"@), name@),
{
    let dir = overwrite_dir(home);
    join_path(dir.as_str(), name)
}

pub fn plugin_venv(home: &str, name: &str) -> (r: String)
    ensures
        r@ == join(join(join(home@, "overwrite"@), name@), ".venv"@),
{
    let dir = plugin_dir(home, name);
    join_path(dir.as_str(), ".venv")
}

/// The Python interpreter inside the virtual environment `venv`:
/// `Scripts/python.exe` on Windows, else `bin/python`.
pub open spec fn venv_python(venv: Seq<char>, windows: bool) -> Seq<char> {
    if windows {
        join(join(venv, "Scripts"@), "python.exe"@)
    } else {
        join(join(venv, "bin"@), "python"@)
    }
}

/// The Python interpreter inside the virtual environment `venv`.
pub fn venv_python_path(venv: &str, windows: bool) -> (r: String)
    ensures
        r@ == venv_python(venv@, windows),
{
    if windows {
        let d = join_path(venv, "Scripts");
        join_path(d.as_str(), "python.exe")
    } else {
        let d = join_path(venv, "bin");
        join_path(d.as_str(), "python")
    }
}

pub fn plugin_python(home: &str, name: &str, windows: bool) -> (r: String)
    ensures
        r@ == venv_python(join(join(join(home@, "overwrite"@), name@), ".venv"@), windows),
{
    let venv = plugin_venv(home, name);
    venv_python_path(venv.as_str(), windows)
}

pub fn plugin_entry(home: &str, name: &str) -> (r: String)
    ensures
        r@ == join(join(join(home@, "overwrite"@), name@), "overwrite.py"@),
{
    let dir = plugin_dir(home, name);
    join_path(dir.as_str(), "overwrite.py")
}

/// A plugin's metadata file.
pub fn plugin_meta_file(home: &str, name: &str) -> (r: String)
    ensures
        r@ == join(join(join(home@, "overwrite"@), name@), "meta.json"@),
{
    let dir = plugin_dir(home, name);
    join_path(dir.as_str(), "meta.json")
}

/// The directory that holds a plugin's code.
pub fn plugin_repo_dir(home: &str, name: &str) -> (r: String)
    ensures
        r@ == join(join(join(home@, "overwrite"@), name@), "overwrite"@),
{
    let dir = plugin_dir(home, name);
    join_path(dir.as_str(), "overwrite")
}

pub fn profiles_dir(home: &str) -> (r: String)
    ensures
        r@ == join(home@, "profile"@),
{
    join_path(home, "profile")
}

pub fn profile_dir(home: &str, name: &str) -> (r: String)
    ensures
        r@ == join(join(home@, "profile"@), name@),
{
    let dir = profiles_dir(home);
    join_path(dir.as_str(), name)
}

/// A profile's configuration as fetched or merged.
pub fn profile_raw_file(home: &str, name: &str) -> (r: String)
    ensures
        r@ == join(join(join(home@, "profile"@), name@), "raw.yml"@),
{
    let dir = profile_dir(home, name);
    join_path(dir.as_str(), "raw.yml")
}

/// A profile's configuration after a plugin processed it.
pub fn profile_processed_file(home: &str, name: &str) -> (r: String)
    ensures
        r@ == join(join(join(home@, "profile"@), name@), "processed.yml"@),
{
    let dir = profile_dir(home, name);
    join_path(dir.as_str(), "processed.yml")
}

pub fn profile_meta_file(home: &str, name: &str) -> (r: String)
    ensures
        r@ == join(join(join(home@, "profile"@), name@), "meta.json"@),
{
    let dir = profile_dir(home, name);
    join_path(dir.as_str(), "meta.json")
}

/// The file that names the active profile.
pub fn active_profile_file(home: &str) -> (r: String)
    ensures
        r@ == join(join(home@, "profile"@), ".active"@),
{
    let dir = profiles_dir(home);
    join_path(dir.as_str(), ".active")
}

/// The configuration the kernel runs with.
pub fn mihomo_config_file(home: &str) -> (r: String)
    ensures
        r@ == join(home@, "config.yaml"@),
{
    join_path(home, "config.yaml")
}

/// Whether `s` may name one directory below another: it is not empty, not
/// `.` or `..`, and holds no `/` or `\`.
pub open spec fn valid_component(s: Seq<char>) -> bool {
    &&& s.len() > 0
    &&& s != "."@
    &&& s != ".."@
    &&& forall|i: int| 0 <= i < s.len() ==> s[i] != '/' && s[i] != '\\'
}

/// A name refused as a path component.
#[derive(Debug, PartialEq, Eq)]
pub struct InvalidComponent {
    /// What the name is for, such as `profile name`.
    pub label: String,
    pub value: String,
}

impl InvalidComponent {
    /// `invalid {label}: {value}`.
    pub fn message(&self) -> (m: String)
        ensures
            m@ == "invalid "@ + self.label@ + ": "@ + self.value@,
    {
        let mut m = "invalid ".to_owned();
        m.append(self.label.as_str());
        m.append(": ");
        m.append(self.value.as_str());
        m
    }
}

/// Checks that `value` may name a directory (see `valid_component`);
/// `label` says what it names, for the error.
pub fn validate_component(value: &str, label: &str) -> (r: Result<(), InvalidComponent>)
    ensures
        r is Ok <==> valid_component(value@),
        r matches Err(e) ==> e.label@ == label@ && e.value@ == value@,
{
    let n = value.unicode_len();
    let err = InvalidComponent { label: label.to_owned(), value: value.to_owned() };
    if n == 0 {
        return Err(err);
    }
    proof {
        reveal_strlit(".");
        reveal_strlit("..");
    }
    if n == 1 && value.get_char(0) == '.' {
        assert(value@ =~= "."@);
        return Err(err);
    }
    if n == 2 && value.get_char(0) == '.' && value.get_char(1) == '.' {
        assert(value@ =~= ".."@);
        return Err(err);
    }
    let chars = crate::text::chars_of(value);
    let mut i: usize = 0;
    while i < chars.len()
        invariant
            i <= chars@.len(),
            chars@ == value@,
            err.label@ == label@,
            err.value@ == value@,
            forall|k: int| 0 <= k < i ==> chars@[k] != '/' && chars@[k] != '\\',
        decreases chars@.len() - i,
    {
        if chars[i] == '/' || chars[i] == '\\' {
            return Err(err);
        }
        i = i + 1;
    }
    assert(value@.len() != 1 || value@[0] != '.');
    Ok(())
}

} // verus!
