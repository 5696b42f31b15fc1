//! Installed kernel versions: which one is active, which are installed,
//! whether one runs, and the status the program reports.

use vstd::prelude::*;

use crate::paths::{join, kernel_binary_name, kernel_binary_path, valid_component, validate_component, InvalidComponent};
use crate::text::{chars_of, contains_seq, contains_text, name_in_file, opt_text, parse_u32, parse_unsigned, read_name};

verus! {

/// An installed kernel version.
#[derive(Debug)]
pub struct KernelInfo {
    pub version: String,
    pub active: bool,
    pub binary_exists: bool,
}

/// What the program reports of the kernel.
#[derive(Debug)]
pub struct KernelStatus {
    pub active_version: Option<String>,
    pub binary_path: Option<String>,
    pub binary_exists: bool,
    pub pid: Option<u32>,
}

/// The active version, from the content of the active-kernel file where it
/// could be read: its trimmed text, where that is not empty.
pub fn read_active(content: Option<&str>) -> (r: Option<String>)
    ensures
        match r {
            Some(v) => name_in_file(opt_text(content)) == Some(v@),
            None => name_in_file(opt_text(content)) is None,
        },
{
    read_name(content)
}

/// Why a version cannot be made active.
#[derive(Debug)]
pub enum SetActiveError {
    Invalid(InvalidComponent),
    /// `kernel version {version} not installed`.
    NotInstalled(String),
}

impl SetActiveError {
    pub fn message(&self) -> (m: String)
        ensures
            match self {
                SetActiveError::Invalid(e) => m@ == "invalid "@ + e.label@ + ": "@ + e.value@,
                SetActiveError::NotInstalled(v) => m@ == "kernel version "@ + v@ + " not installed"@,
            },
    {
        match self {
            SetActiveError::Invalid(e) => e.message(),
            SetActiveError::NotInstalled(v) => {
                let mut m = "kernel version ".to_owned();
                m.append(v.as_str());
                m.append(" not installed");
                m
            }
        }
    }
}

/// Whether `version` may be written to the active-kernel file: it must be
/// a plain path component and its directory must exist (`installed`).
pub fn check_set_active(version: &str, installed: bool) -> (r: Result<(), SetActiveError>)
    ensures
        r is Ok <==> valid_component(version@) && installed,
        r matches Err(SetActiveError::Invalid(e)) ==> !valid_component(version@)
            && e.label@ == "kernel version"@ && e.value@ == version@,
        r matches Err(SetActiveError::NotInstalled(v)) ==> valid_component(version@) && !installed
            && v@ == version@,
{
    match validate_component(version, "kernel version") {
        Err(e) => Err(SetActiveError::Invalid(e)),
        Ok(()) => {
            if installed {
                Ok(())
            } else {
                Err(SetActiveError::NotInstalled(version.to_owned()))
            }
        }
    }
}

/// An entry of the kernels directory, with what the file system says of it.
#[derive(Debug)]
pub struct KernelDirEntry {
    pub name: String,
    pub is_dir: bool,
    /// Whether the kernel executable exists inside it.
    pub binary_exists: bool,
}

/// A directory whose name does not start with `.` is an installed version.
pub open spec fn is_version_dir(e: KernelDirEntry) -> bool {
    e.is_dir && !(e.name@.len() > 0 && e.name@[0] == '.')
}

/// The installed versions among `entries`, in order, each as
/// `(version, active, binary_exists)`.
pub open spec fn installed_versions(entries: Seq<KernelDirEntry>, active: Option<Seq<char>>) -> Seq<(Seq<char>, bool, bool)>
    decreases entries.len(),
{
    if entries.len() == 0 {
        Seq::empty()
    } else {
        let rest = installed_versions(entries.drop_last(), active);
        let e = entries.last();
        if is_version_dir(e) {
            rest.push((e.name@, active == Some(e.name@), e.binary_exists))
        } else {
            rest
        }
    }
}

pub open spec fn kernel_infos_view(v: Seq<KernelInfo>) -> Seq<(Seq<char>, bool, bool)> {
    v.map_values(|k: KernelInfo| (k.version@, k.active, k.binary_exists))
}

/// The installed kernel versions among the entries of the kernels
/// directory, marking the active one.
pub fn list_installed(entries: &Vec<KernelDirEntry>, active: Option<&str>) -> (r: Vec<KernelInfo>)
    ensures
        kernel_infos_view(r@) == installed_versions(entries@, opt_text(active)),
{
    let ghost act = opt_text(active);
    let mut out: Vec<KernelInfo> = Vec::new();
    let mut i: usize = 0;
    while i < entries.len()
        invariant
            i <= entries@.len(),
            act == opt_text(active),
            kernel_infos_view(out@) == installed_versions(entries@.take(i as int), act),
        decreases entries@.len() - i,
    {
        let e = &entries[i];
        let name = e.name.as_str();
        let hidden = name.unicode_len() > 0 && name.get_char(0) == '.';
        proof {
            assert(entries@.take(i + 1).drop_last() =~= entries@.take(i as int));
            assert(entries@.take(i + 1).last() == entries@[i as int]);
        }
        if e.is_dir && !hidden {
            let is_active = match active {
                Some(a) => crate::text::same_text(a, name),
                None => false,
            };
            let info = KernelInfo {
                version: e.name.clone(),
                active: is_active,
                binary_exists: e.binary_exists,
            };
            let ghost before = out@;
            let ghost row = (info.version@, info.active, info.binary_exists);
            out.push(info);
            proof {
                assert(kernel_infos_view(out@) =~= kernel_infos_view(before).push(row));
            }
        }
        i = i + 1;
    }
    assert(entries@.take(entries@.len() as int) =~= entries@);
    out
}

/// A running process as the system lists it: the text that names its
/// process id, and the file name of its executable where it can be read.
#[derive(Debug)]
pub struct ProcessEntry {
    pub pid_text: String,
    pub exe_name: Option<String>,
}

/// Whether the process is a kernel: its id parses as a `u32` and its
/// executable's name mentions `mihomo`.
pub open spec fn kernel_process_pid(e: ProcessEntry) -> Option<u32> {
    match parse_unsigned(e.pid_text@, u32::MAX as nat) {
        Some(pid) => match e.exe_name {
            Some(n) => if contains_seq(n@, "mihomo"@) {
                Some(pid as u32)
            } else {
                None
            },
            None => None,
        },
        None => None,
    }
}

/// The id of the first kernel process among `entries`, after the first
/// `from` were passed over.
pub open spec fn first_kernel_pid(entries: Seq<ProcessEntry>, from: int) -> Option<u32>
    decreases entries.len() - from,
{
    if from < 0 || from >= entries.len() {
        None
    } else {
        match kernel_process_pid(entries[from]) {
            Some(pid) => Some(pid),
            None => first_kernel_pid(entries, from + 1),
        }
    }
}

/// The id of a running kernel, found by scanning the system's process list.
pub fn running_pid(entries: &Vec<ProcessEntry>) -> (r: Option<u32>)
    ensures
        r == first_kernel_pid(entries@, 0),
{
    let mut i: usize = 0;
    while i < entries.len()
        invariant
            i <= entries@.len(),
            first_kernel_pid(entries@, 0) == first_kernel_pid(entries@, i as int),
        decreases entries@.len() - i,
    {
        let e = &entries[i];
        let digits = chars_of(e.pid_text.as_str());
        match parse_u32(digits.as_slice()) {
            Some(pid) => match &e.exe_name {
                Some(n) => {
                    if contains_text(n.as_str(), "mihomo") {
                        return Some(pid);
                    }
                }
                None => {}
            },
            None => {}
        }
        i = i + 1;
    }
    None
}

/// The kernel status: the active version (see `read_active`), the path of
/// its executable and whether that exists (`binary_exists`, as the file
/// system reports it), and the id of a running kernel.
pub fn kernel_status(home: &str, windows: bool, active: Option<String>, binary_exists: bool, pid: Option<u32>) -> (r: KernelStatus)
    ensures
        r.pid == pid,
        match active {
            Some(v) => {
                &&& r.active_version matches Some(a) && a@ == v@
                &&& r.binary_path matches Some(p) && p@ == join(join(join(home@, "kernels"@), v@), kernel_binary_name(windows))
                &&& r.binary_exists == binary_exists
            },
            None => r.active_version is None && r.binary_path is None && !r.binary_exists,
        },
{
    match active {
        Some(version) => {
            let path = kernel_binary_path(home, version.as_str(), windows);
            KernelStatus { active_version: Some(version), binary_exists, binary_path: Some(path), pid }
        }
        None => KernelStatus { active_version: None, binary_path: None, binary_exists: false, pid },
    }
}

} // verus!
