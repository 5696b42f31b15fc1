use std::io::Write;

use bnvr::kernel::download::{
    asset_name, detect_platform, download_url, extract_kernel, kernel_member_file, platform_supported, ArchiveError,
};
use bnvr::kernel::manage::{
    check_set_active, kernel_status, list_installed, read_active, running_pid, KernelDirEntry, ProcessEntry,
    SetActiveError,
};

#[test]
fn platform_names() {
    assert!(platform_supported("linux", "x86_64"));
    assert!(platform_supported("windows", "aarch64"));
    assert!(!platform_supported("macos", "x86_64"));
    assert!(!platform_supported("linux", "riscv64"));
    assert_eq!(detect_platform("linux", "x86_64"), ("linux", "amd64"));
    assert_eq!(detect_platform("windows", "aarch64"), ("windows", "arm64"));
}

#[test]
fn release_asset_and_url() {
    assert_eq!(asset_name("v1.19.27", "linux", "x86_64"), "mihomo-linux-amd64-v1.19.27.gz");
    assert_eq!(asset_name("v1.19.27", "windows", "x86_64"), "mihomo-windows-amd64-v1.19.27.zip");
    assert_eq!(
        download_url("v1.19.27", "linux", "aarch64"),
        "https://github.com/MetaCubeX/mihomo/releases/download/v1.19.27/mihomo-linux-arm64-v1.19.27.gz"
    );
}

#[test]
fn kernel_member_names() {
    assert_eq!(kernel_member_file("mihomo-windows-amd64.exe"), Some("mihomo.exe"));
    assert_eq!(kernel_member_file("mihomo"), Some("mihomo"));
    assert_eq!(kernel_member_file("dir/mihomo"), None);
    assert_eq!(kernel_member_file("README.md"), None);
    assert_eq!(kernel_member_file("LICENSE"), None);
}

#[test]
fn extract_gzip_kernel() {
    let mut enc = flate2::write::GzEncoder::new(Vec::new(), flate2::Compression::default());
    enc.write_all(b"\x7fELF kernel").unwrap();
    let data = enc.finish().unwrap();
    let file = extract_kernel(&data, false).unwrap();
    assert_eq!(file.file_name, "mihomo");
    assert_eq!(file.content, b"\x7fELF kernel");
    assert_eq!(extract_kernel(b"not gzip", false).err(), Some(ArchiveError::Unreadable));
}

#[test]
fn extract_zip_kernel() {
    let mut buf = std::io::Cursor::new(Vec::new());
    {
        let mut w = zip::ZipWriter::new(&mut buf);
        let opts = zip::write::SimpleFileOptions::default().compression_method(zip::CompressionMethod::Stored);
        w.start_file("README.md", opts).unwrap();
        w.write_all(b"readme").unwrap();
        w.start_file("mihomo-windows-amd64.exe", opts).unwrap();
        w.write_all(b"MZ kernel").unwrap();
        w.finish().unwrap();
    }
    let data = buf.into_inner();
    let file = extract_kernel(&data, true).unwrap();
    assert_eq!(file.file_name, "mihomo.exe");
    assert_eq!(file.content, b"MZ kernel");

    let mut empty = std::io::Cursor::new(Vec::new());
    {
        let mut w = zip::ZipWriter::new(&mut empty);
        let opts = zip::write::SimpleFileOptions::default().compression_method(zip::CompressionMethod::Stored);
        w.start_file("notes.txt", opts).unwrap();
        w.write_all(b"x").unwrap();
        w.finish().unwrap();
    }
    let err = extract_kernel(&empty.into_inner(), true).unwrap_err();
    assert_eq!(err, ArchiveError::NoKernel);
    assert_eq!(err.message(), "no mihomo binary found in zip archive");
}

#[test]
fn test_kernel_status_includes_pid() {
    let status = kernel_status("/home/u/.bnvr", false, None, false, None);
    let _ = status.pid;
    let status = kernel_status("/home/u/.bnvr", false, Some("v1".to_string()), true, Some(42));
    assert_eq!(status.pid, Some(42));
}

#[test]
fn test_kernel_status_no_active() {
    let s = kernel_status("/home/u/.bnvr", false, read_active(None), false, None);
    assert!(s.active_version.is_none());
    assert!(!s.binary_exists);
    assert!(s.binary_path.is_none());
}

#[test]
fn kernel_status_with_active_version() {
    let s = kernel_status("/home/u/.bnvr", false, read_active(Some(" v1.2.3\n")), true, None);
    assert_eq!(s.active_version.as_deref(), Some("v1.2.3"));
    assert_eq!(s.binary_path.as_deref(), Some("/home/u/.bnvr/kernels/v1.2.3/mihomo"));
    assert!(s.binary_exists);
}

#[test]
fn read_active_ignores_blank_file() {
    assert_eq!(read_active(Some("  \n")), None);
    assert_eq!(read_active(None), None);
    assert_eq!(read_active(Some("v1\n")).as_deref(), Some("v1"));
}

#[test]
fn test_list_installed_empty() {
    let list = list_installed(&Vec::new(), None);
    assert!(list.is_empty());
}

#[test]
fn list_installed_marks_active_and_skips_hidden() {
    let entries = vec![
        KernelDirEntry { name: "v1".into(), is_dir: true, binary_exists: true },
        KernelDirEntry { name: ".install-7-v2".into(), is_dir: true, binary_exists: false },
        KernelDirEntry { name: ".active".into(), is_dir: false, binary_exists: false },
        KernelDirEntry { name: "v2".into(), is_dir: true, binary_exists: false },
        KernelDirEntry { name: "notes".into(), is_dir: false, binary_exists: false },
    ];
    let list = list_installed(&entries, Some("v2"));
    assert_eq!(list.len(), 2);
    assert_eq!(list[0].version, "v1");
    assert!(!list[0].active && list[0].binary_exists);
    assert_eq!(list[1].version, "v2");
    assert!(list[1].active && !list[1].binary_exists);
}

#[test]
fn test_set_active_rejects_missing_version() {
    let result = check_set_active("v99.99.99-nonexistent", false);
    assert!(result.is_err());
    assert_eq!(result.unwrap_err().message(), "kernel version v99.99.99-nonexistent not installed");
}

#[test]
fn set_active_rejects_escape() {
    let err = check_set_active("../escape", true).unwrap_err();
    assert!(matches!(err, SetActiveError::Invalid(_)));
    assert_eq!(err.message(), "invalid kernel version: ../escape");
    assert!(check_set_active("v1.19.27", true).is_ok());
}

#[test]
fn test_running_pid_returns_option() {
    let none = running_pid(&Vec::new());
    assert!(none.is_none());
    let entries = vec![
        ProcessEntry { pid_text: "self".into(), exe_name: Some("mihomo".into()) },
        ProcessEntry { pid_text: "12".into(), exe_name: Some("bash".into()) },
        ProcessEntry { pid_text: "34".into(), exe_name: None },
        ProcessEntry { pid_text: "56".into(), exe_name: Some("mihomo-linux".into()) },
        ProcessEntry { pid_text: "78".into(), exe_name: Some("mihomo".into()) },
    ];
    let pid = running_pid(&entries);
    assert_eq!(pid, Some(56));
    if let Some(p) = pid {
        assert!(p > 0);
    }
}
