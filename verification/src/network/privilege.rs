//! Whether the process may create a TUN device.

use vstd::prelude::*;

verus! {

/// The operating system the program runs on.
#[derive(Debug, Clone, Copy, PartialEq, Eq, Structural)]
pub enum HostOs {
    Windows,
    Linux,
    Other,
}

/// Why the process may not create a TUN device.
#[derive(Debug)]
pub enum PrivilegeError {
    /// On Windows, the process does not run as Administrator.
    NotAdministrator,
    /// On Linux, the process is neither root nor holds `CAP_NET_ADMIN`.
    NoNetAdmin,
    /// On Linux, the process's capabilities could not be read; the text is
    /// what was reported.
    CapabilityQuery(String),
    /// TUN devices are made on Windows and Linux only.
    Unsupported,
}

pub open spec fn privilege_message(e: PrivilegeError) -> Seq<char> {
    match e {
        PrivilegeError::NotAdministrator => "TUN device creation requires Administrator privileges. Run Command Prompt as Administrator, then execute 'bnvr daemon start'."@,
        PrivilegeError::NoNetAdmin => "TUN device creation requires root or CAP_NET_ADMIN. Run 'sudo bnvr daemon start' or grant capabilities with 'sudo setcap cap_net_admin+eip /path/to/bnvr'."@,
        PrivilegeError::CapabilityQuery(m) => m@,
        PrivilegeError::Unsupported => "TUN device creation is supported only on Windows and Linux"@,
    }
}

impl PrivilegeError {
    pub fn message(&self) -> (m: String)
        ensures
            m@ == privilege_message(*self),
    {
        match self {
            PrivilegeError::NotAdministrator => "TUN device creation requires Administrator privileges. Run Command Prompt as Administrator, then execute 'bnvr daemon start'.".to_owned(),
            PrivilegeError::NoNetAdmin => "TUN device creation requires root or CAP_NET_ADMIN. Run 'sudo bnvr daemon start' or grant capabilities with 'sudo setcap cap_net_admin+eip /path/to/bnvr'.".to_owned(),
            PrivilegeError::CapabilityQuery(m) => m.clone(),
            PrivilegeError::Unsupported => "TUN device creation is supported only on Windows and Linux".to_owned(),
        }
    }
}

/// Decides whether a TUN device may be created. `elevated` says whether
/// the process runs as Administrator (Windows) or as root (Linux);
/// `cap_net_admin` is what asking Linux for the effective `CAP_NET_ADMIN`
/// capability gave, consulted only where the process is not root.
pub fn check_privileges(os: HostOs, elevated: bool, cap_net_admin: Result<bool, String>) -> (r: Result<(), PrivilegeError>)
    ensures
        r is Ok <==> (os != HostOs::Other && elevated) || (os == HostOs::Linux && cap_net_admin == Ok::<bool, String>(true)),
        r matches Err(PrivilegeError::NotAdministrator) <==> os == HostOs::Windows && !elevated,
        r matches Err(PrivilegeError::NoNetAdmin) <==> os == HostOs::Linux && !elevated && cap_net_admin == Ok::<bool, String>(false),
        r matches Err(PrivilegeError::CapabilityQuery(m)) <==> os == HostOs::Linux && !elevated && cap_net_admin is Err,
        r matches Err(PrivilegeError::CapabilityQuery(m)) ==> cap_net_admin == Err::<bool, String>(m),
        r matches Err(PrivilegeError::Unsupported) <==> os == HostOs::Other,
{
    match os {
        HostOs::Windows => {
            if elevated {
                Ok(())
            } else {
                Err(PrivilegeError::NotAdministrator)
            }
        }
        HostOs::Linux => {
            if elevated {
                return Ok(());
            }
            match cap_net_admin {
                Ok(true) => Ok(()),
                Ok(false) => Err(PrivilegeError::NoNetAdmin),
                Err(m) => Err(PrivilegeError::CapabilityQuery(m)),
            }
        }
        HostOs::Other => Err(PrivilegeError::Unsupported),
    }
}

} // verus!
