//! Which mihomo release asset fits a platform, where it is published, and
//! how the kernel executable is taken out of a downloaded archive.

use vstd::prelude::*;

use crate::paths::{valid_component, validate_component, InvalidComponent};
use crate::text::{contains_seq, contains_text, decimal, decimal_string, ends_with_seq, ends_with_text, has_char, same_text};

verus! {

/// The release name of an operating system, given as `std::env::consts::OS`
/// names it, where mihomo is published for it.
pub open spec fn release_os(target_os: Seq<char>) -> Option<Seq<char>> {
    if target_os == "windows"@ {
        Some("windows"@)
    } else if target_os == "linux"@ {
        Some("linux"@)
    } else {
        None
    }
}

/// The release name of an architecture, given as `std::env::consts::ARCH`
/// names it, where mihomo is published for it.
pub open spec fn release_arch(target_arch: Seq<char>) -> Option<Seq<char>> {
    if target_arch == "x86_64"@ {
        Some("amd64"@)
    } else if target_arch == "aarch64"@ {
        Some("arm64"@)
    } else {
        None
    }
}

pub open spec fn supported(target_os: Seq<char>, target_arch: Seq<char>) -> bool {
    release_os(target_os) is Some && release_arch(target_arch) is Some
}

/// Whether mihomo is published for this operating system and architecture.
pub fn platform_supported(target_os: &str, target_arch: &str) -> (r: bool)
    ensures
        r == supported(target_os@, target_arch@),
{
    (same_text(target_os, "windows") || same_text(target_os, "linux")) && (same_text(
        target_arch,
        "x86_64",
    ) || same_text(target_arch, "aarch64"))
}

/// The release names `(os, arch)` of a supported platform.
pub fn detect_platform(target_os: &str, target_arch: &str) -> (r: (&'static str, &'static str))
    requires
        supported(target_os@, target_arch@),
    ensures
        r.0@ == release_os(target_os@)->Some_0,
        r.1@ == release_arch(target_arch@)->Some_0,
{
    let os = if same_text(target_os, "windows") {
        "windows"
    } else {
        "linux"
    };
    let arch = if same_text(target_arch, "x86_64") {
        "amd64"
    } else {
        "arm64"
    };
    (os, arch)
}

/// Windows releases are zip archives, the others gzip streams.
pub open spec fn archive_ext(os: Seq<char>) -> Seq<char> {
    if os == "windows"@ {
        "zip"@
    } else {
        "gz"@
    }
}

/// `mihomo-{os}-{arch}-{version}.{ext}`.
pub open spec fn asset_file_name(os: Seq<char>, arch: Seq<char>, version: Seq<char>) -> Seq<char> {
    "mihomo-"@ + os + "-"@ + arch + "-"@ + version + "."@ + archive_ext(os)
}

/// The name of the release asset of `version` for this platform.
pub fn asset_name(version: &str, target_os: &str, target_arch: &str) -> (r: String)
    requires
        supported(target_os@, target_arch@),
    ensures
        r@ == asset_file_name(
            release_os(target_os@)->Some_0,
            release_arch(target_arch@)->Some_0,
            version@,
        ),
{
    let (os, arch) = detect_platform(target_os, target_arch);
    let ext = if same_text(os, "windows") {
        "zip"
    } else {
        "gz"
    };
    let mut r = "mihomo-".to_owned();
    r.append(os);
    r.append("-");
    r.append(arch);
    r.append("-");
    r.append(version);
    r.append(".");
    r.append(ext);
    r
}

/// The release asset for a supported platform is a zip archive exactly on
/// Windows, whatever the architecture and version, and a gzip stream
/// everywhere else; its name starts with `mihomo-` and the release names
/// of the operating system and architecture.
pub proof fn lemma_asset_extension(version: Seq<char>, target_os: Seq<char>, target_arch: Seq<char>)
    requires
        supported(target_os, target_arch),
    ensures
        ({
            let n = asset_file_name(release_os(target_os)->Some_0, release_arch(target_arch)->Some_0, version);
            &&& ends_with_seq(n, ".zip"@) <==> target_os == "windows"@
            &&& ends_with_seq(n, ".gz"@) <==> target_os != "windows"@
            &&& n.take(7) == "mihomo-"@
        }),
{
    reveal_strlit("windows");
    reveal_strlit("linux");
    reveal_strlit("zip");
    reveal_strlit("gz");
    reveal_strlit(".");
    reveal_strlit(".zip");
    reveal_strlit(".gz");
    reveal_strlit("mihomo-");
    let os = release_os(target_os)->Some_0;
    let arch = release_arch(target_arch)->Some_0;
    let head = "mihomo-"@ + os + "-"@ + arch + "-"@ + version + "."@;
    let n = asset_file_name(os, arch, version);
    assert(n == head + archive_ext(os));
    assert(n.take(7) =~= "mihomo-"@);
    if target_os == "windows"@ {
        assert(os == "windows"@);
        assert(n.skip(n.len() - 4) =~= ".zip"@);
        assert(n.skip(n.len() - 3) =~= "zip"@);
        assert(n.skip(n.len() - 3)[0] == 'z');
        assert(".gz"@[0] == '.');
    } else {
        assert(os == "linux"@);
        assert(os != "windows"@);
        assert(n.skip(n.len() - 3) =~= ".gz"@);
        assert(n.last() == 'z');
        assert(".zip"@.last() == 'p');
        if n.len() >= 4 {
            assert(n.skip(n.len() - 4).last() == n.last());
        }
    }
}

/// Where the release asset of `version` is published.
pub open spec fn asset_url(version: Seq<char>, asset: Seq<char>) -> Seq<char> {
    "https://github.com/MetaCubeX/mihomo/releases/download/"@ + version + "/"@ + asset
}

/// The download address of the release asset of `version` for this platform.
pub fn download_url(version: &str, target_os: &str, target_arch: &str) -> (r: String)
    requires
        supported(target_os@, target_arch@),
    ensures
        r@ == asset_url(
            version@,
            asset_file_name(
                release_os(target_os@)->Some_0,
                release_arch(target_arch@)->Some_0,
                version@,
            ),
        ),
{
    let asset = asset_name(version, target_os, target_arch);
    let mut r = "https://github.com/MetaCubeX/mihomo/releases/download/".to_owned();
    r.append(version);
    r.append("/");
    r.append(asset.as_str());
    r
}

/// The file that a member of a Windows release archive is saved as when it
/// holds the kernel: a name ending in `.exe`, or a bare name (no `/`, no
/// `.`) that mentions `mihomo`.
pub open spec fn kernel_member_target(name: Seq<char>) -> Option<Seq<char>> {
    if ends_with_seq(name, ".exe"@) {
        Some("mihomo.exe"@)
    } else if !name.contains('/') && !name.contains('.') && contains_seq(name, "mihomo"@) {
        Some("mihomo"@)
    } else {
        None
    }
}

/// See `kernel_member_target`.
pub fn kernel_member_file(name: &str) -> (r: Option<&'static str>)
    ensures
        match r {
            Some(f) => kernel_member_target(name@) == Some(f@),
            None => kernel_member_target(name@) is None,
        },
{
    if ends_with_text(name, ".exe") {
        Some("mihomo.exe")
    } else if !has_char(name, '/') && !has_char(name, '.') && contains_text(name, "mihomo") {
        Some("mihomo")
    } else {
        None
    }
}

/// The decompressed form of a gzip stream, where it is one.
pub uninterp spec fn gz_decoded(data: Seq<u8>) -> Option<Seq<u8>>;

/// The number of members of a zip archive, where the bytes are one.
pub uninterp spec fn zip_member_count(data: Seq<u8>) -> Option<nat>;

/// The name of member `index` of a zip archive, where it can be opened.
pub uninterp spec fn zip_member_name(data: Seq<u8>, index: int) -> Option<Seq<char>>;

/// The decompressed content of member `index` of a zip archive, where it
/// can be read.
pub uninterp spec fn zip_member_content(data: Seq<u8>, index: int) -> Option<Seq<u8>>;

/// `flate2::read::GzDecoder::new` over the bytes, read to the end. The
/// result is named `gz_decoded`; `None` where the decoder reports an error.
#[verifier::external_body]
fn gunzip(data: &[u8]) -> (r: Option<Vec<u8>>)
    ensures
        match r {
            Some(v) => gz_decoded(data@) == Some(v@),
            None => gz_decoded(data@) is None,
        },
{
    let mut out = Vec::new();
    std::io::Read::read_to_end(&mut flate2::read::GzDecoder::new(data), &mut out).ok()?;
    Some(out)
}

/// `zip::ZipArchive::new` over the bytes, then `len()`. The result is named
/// `zip_member_count`; `None` where the archive cannot be opened.
#[verifier::external_body]
fn zip_len(data: &[u8]) -> (r: Option<usize>)
    ensures
        match r {
            Some(n) => zip_member_count(data@) == Some(n as nat),
            None => zip_member_count(data@) is None,
        },
{
    let archive = zip::ZipArchive::new(std::io::Cursor::new(data)).ok()?;
    Some(archive.len())
}

/// `zip::ZipArchive::new` over the bytes, then `by_index(index)` and the
/// member's `name()`. The result is named `zip_member_name`; `None` where
/// either call reports an error.
#[verifier::external_body]
fn zip_name(data: &[u8], index: usize) -> (r: Option<String>)
    ensures
        match r {
            Some(s) => zip_member_name(data@, index as int) == Some(s@),
            None => zip_member_name(data@, index as int) is None,
        },
{
    let mut archive = zip::ZipArchive::new(std::io::Cursor::new(data)).ok()?;
    let member = archive.by_index(index).ok()?;
    Some(member.name().to_string())
}

/// `zip::ZipArchive::new` over the bytes, then `by_index(index)` read to
/// the end. The result is named `zip_member_content`; `None` where a call
/// reports an error.
#[verifier::external_body]
fn zip_content(data: &[u8], index: usize) -> (r: Option<Vec<u8>>)
    ensures
        match r {
            Some(v) => zip_member_content(data@, index as int) == Some(v@),
            None => zip_member_content(data@, index as int) is None,
        },
{
    let mut archive = zip::ZipArchive::new(std::io::Cursor::new(data)).ok()?;
    let mut member = archive.by_index(index).ok()?;
    let mut out = Vec::new();
    std::io::Read::read_to_end(&mut member, &mut out).ok()?;
    Some(out)
}

/// Why no kernel came out of a release archive.
#[derive(Debug, Clone, Copy, PartialEq, Eq, Structural)]
pub enum ArchiveError {
    /// The archive, or one of its members, could not be read.
    Unreadable,
    /// The zip archive has no member that holds the kernel.
    NoKernel,
}

impl ArchiveError {
    pub fn message(&self) -> (m: &'static str)
        ensures
            m@ == archive_error_message(*self),
    {
        match self {
            ArchiveError::Unreadable => "kernel archive could not be read",
            ArchiveError::NoKernel => "no mihomo binary found in zip archive",
        }
    }
}

pub open spec fn archive_error_message(e: ArchiveError) -> Seq<char> {
    match e {
        ArchiveError::Unreadable => "kernel archive could not be read"@,
        ArchiveError::NoKernel => "no mihomo binary found in zip archive"@,
    }
}

/// The executable taken out of a release archive, and the file name it is
/// saved under in the version's directory.
#[derive(Debug)]
pub struct KernelFile {
    pub file_name: &'static str,
    pub content: Vec<u8>,
}

/// The first member of a zip archive that holds the kernel, after members
/// `0 .. from` were passed over: what reading the members in order finds.
pub open spec fn zip_scan(data: Seq<u8>, from: nat, count: nat) -> Result<(nat, Seq<char>), ArchiveError>
    decreases count - from,
{
    if from >= count {
        Err(ArchiveError::NoKernel)
    } else {
        match zip_member_name(data, from as int) {
            None => Err(ArchiveError::Unreadable),
            Some(name) => match kernel_member_target(name) {
                Some(target) => Ok((from, target)),
                None => zip_scan(data, from + 1, count),
            },
        }
    }
}

/// What unpacking a Windows release archive gives.
pub open spec fn zip_extract(data: Seq<u8>) -> Result<(Seq<char>, Seq<u8>), ArchiveError> {
    match zip_member_count(data) {
        None => Err(ArchiveError::Unreadable),
        Some(count) => match zip_scan(data, 0, count) {
            Err(e) => Err(e),
            Ok((index, target)) => match zip_member_content(data, index as int) {
                None => Err(ArchiveError::Unreadable),
                Some(content) => Ok((target, content)),
            },
        },
    }
}

/// What unpacking a release archive gives: on Windows the kernel member of
/// a zip archive, elsewhere the decompressed gzip stream saved as `mihomo`.
pub open spec fn extract_spec(data: Seq<u8>, windows: bool) -> Result<(Seq<char>, Seq<u8>), ArchiveError> {
    if windows {
        zip_extract(data)
    } else {
        match gz_decoded(data) {
            None => Err(ArchiveError::Unreadable),
            Some(content) => Ok(("mihomo"@, content)),
        }
    }
}

/// Takes the kernel executable out of a downloaded release archive.
pub fn extract_kernel(data: &[u8], windows: bool) -> (r: Result<KernelFile, ArchiveError>)
    ensures
        match r {
            Ok(f) => extract_spec(data@, windows) == Ok::<(Seq<char>, Seq<u8>), ArchiveError>(
                (f.file_name@, f.content@),
            ),
            Err(e) => extract_spec(data@, windows) == Err::<(Seq<char>, Seq<u8>), ArchiveError>(e),
        },
{
    if !windows {
        return match gunzip(data) {
            Some(content) => Ok(KernelFile { file_name: "mihomo", content }),
            None => Err(ArchiveError::Unreadable),
        };
    }
    let count = match zip_len(data) {
        Some(n) => n,
        None => return Err(ArchiveError::Unreadable),
    };
    let mut i: usize = 0;
    while i < count
        invariant
            windows,
            i <= count,
            zip_member_count(data@) == Some(count as nat),
            zip_scan(data@, 0, count as nat) == zip_scan(data@, i as nat, count as nat),
        decreases count - i,
    {
        let name = match zip_name(data, i) {
            Some(n) => n,
            None => return Err(ArchiveError::Unreadable),
        };
        match kernel_member_file(name.as_str()) {
            Some(file_name) => {
                return match zip_content(data, i) {
                    Some(content) => Ok(KernelFile { file_name, content }),
                    None => Err(ArchiveError::Unreadable),
                };
            }
            None => {}
        }
        i = i + 1;
    }
    Err(ArchiveError::NoKernel)
}

/// What installing `version` starts from: `latest` asks the release
/// service for the newest version (`None`); any other version must be a
/// plain path component and is installed as given.
pub fn install_request(version: &str) -> (r: Result<Option<String>, InvalidComponent>)
    ensures
        version@ == "latest"@ ==> r matches Ok(None),
        version@ != "latest"@ ==> match r {
            Ok(Some(v)) => v@ == version@ && valid_component(version@),
            Ok(None) => false,
            Err(e) => !valid_component(version@) && e.label@ == "kernel version"@ && e.value@ == version@,
        },
{
    if same_text(version, "latest") {
        return Ok(None);
    }
    validate_component(version, "kernel version")?;
    Ok(Some(version.to_owned()))
}

/// The directory a download is unpacked in before it is moved into place:
/// `.install-{pid}-{version}` in the kernels directory, hidden from the
/// list of installed versions.
pub fn staging_dir_name(pid: u32, version: &str) -> (r: String)
    ensures
        r@ == ".install-"@ + decimal(pid as nat) + "-"@ + version@,
{
    let mut r = ".install-".to_owned();
    let p = decimal_string(pid as u64);
    r.append(p.as_str());
    r.append("-");
    r.append(version);
    r
}

} // verus!
