//! The daemon's control socket: the methods its requests name, which of
//! them need the daemon's state, and the context TUN mode is written with.

use vstd::prelude::*;

use crate::text::same_text;

verus! {

/// The name of the daemon's local socket.
pub const SOCKET_NAME: &'static str = "bnvr";

/// What TUN mode needs to write the kernel's configuration: the device and
/// the bypass routes.
#[derive(Debug)]
pub struct TunContext {
    pub device: String,
    pub bypass_routes: Vec<String>,
}

/// A method that a request may name.
#[derive(Debug, Clone, Copy, PartialEq, Eq, Structural)]
pub enum IpcMethod {
    Status,
    Shutdown,
    KernelStart,
    KernelStop,
    KernelStatus,
    TunSetup,
    TunClear,
    TunContext,
    AddBypass,
    SwitchNode,
}

/// The name a request gives a method.
pub open spec fn method_name(m: IpcMethod) -> Seq<char> {
    match m {
        IpcMethod::Status => "status"@,
        IpcMethod::Shutdown => "shutdown"@,
        IpcMethod::KernelStart => "kernel.start"@,
        IpcMethod::KernelStop => "kernel.stop"@,
        IpcMethod::KernelStatus => "kernel.status"@,
        IpcMethod::TunSetup => "tun_setup"@,
        IpcMethod::TunClear => "tun_clear"@,
        IpcMethod::TunContext => "tun_context"@,
        IpcMethod::AddBypass => "add_bypass"@,
        IpcMethod::SwitchNode => "switch_node"@,
    }
}

/// The methods that act on the daemon's state: all but `status`,
/// `shutdown` and `switch_node`.
pub open spec fn needs_daemon(m: IpcMethod) -> bool {
    !(m == IpcMethod::Status || m == IpcMethod::Shutdown || m == IpcMethod::SwitchNode)
}

impl IpcMethod {
    pub fn name(&self) -> (r: &'static str)
        ensures
            r@ == method_name(*self),
    {
        match self {
            IpcMethod::Status => "status",
            IpcMethod::Shutdown => "shutdown",
            IpcMethod::KernelStart => "kernel.start",
            IpcMethod::KernelStop => "kernel.stop",
            IpcMethod::KernelStatus => "kernel.status",
            IpcMethod::TunSetup => "tun_setup",
            IpcMethod::TunClear => "tun_clear",
            IpcMethod::TunContext => "tun_context",
            IpcMethod::AddBypass => "add_bypass",
            IpcMethod::SwitchNode => "switch_node",
        }
    }
}

/// Why a request is answered with an error before any work.
#[derive(Debug)]
pub enum IpcError {
    /// The method acts on the daemon's state, and this listener has none.
    NoDaemonState,
    /// `unknown method: {name}`.
    UnknownMethod(String),
}

impl IpcError {
    pub fn message(&self) -> (m: String)
        ensures
            match self {
                IpcError::NoDaemonState => m@ == "daemon state not available"@,
                IpcError::UnknownMethod(n) => m@ == "unknown method: "@ + n@,
            },
    {
        match self {
            IpcError::NoDaemonState => "daemon state not available".to_owned(),
            IpcError::UnknownMethod(n) => {
                let mut m = "unknown method: ".to_owned();
                m.append(n.as_str());
                m
            }
        }
    }
}

/// The method a request names, where it names one.
pub open spec fn method_named(name: Seq<char>) -> Option<IpcMethod> {
    if name == "status"@ {
        Some(IpcMethod::Status)
    } else if name == "shutdown"@ {
        Some(IpcMethod::Shutdown)
    } else if name == "kernel.start"@ {
        Some(IpcMethod::KernelStart)
    } else if name == "kernel.stop"@ {
        Some(IpcMethod::KernelStop)
    } else if name == "kernel.status"@ {
        Some(IpcMethod::KernelStatus)
    } else if name == "tun_setup"@ {
        Some(IpcMethod::TunSetup)
    } else if name == "tun_clear"@ {
        Some(IpcMethod::TunClear)
    } else if name == "tun_context"@ {
        Some(IpcMethod::TunContext)
    } else if name == "add_bypass"@ {
        Some(IpcMethod::AddBypass)
    } else if name == "switch_node"@ {
        Some(IpcMethod::SwitchNode)
    } else {
        None
    }
}

fn lookup_method(name: &str) -> (r: Option<IpcMethod>)
    ensures
        r == method_named(name@),
{
    if same_text(name, "status") {
        Some(IpcMethod::Status)
    } else if same_text(name, "shutdown") {
        Some(IpcMethod::Shutdown)
    } else if same_text(name, "kernel.start") {
        Some(IpcMethod::KernelStart)
    } else if same_text(name, "kernel.stop") {
        Some(IpcMethod::KernelStop)
    } else if same_text(name, "kernel.status") {
        Some(IpcMethod::KernelStatus)
    } else if same_text(name, "tun_setup") {
        Some(IpcMethod::TunSetup)
    } else if same_text(name, "tun_clear") {
        Some(IpcMethod::TunClear)
    } else if same_text(name, "tun_context") {
        Some(IpcMethod::TunContext)
    } else if same_text(name, "add_bypass") {
        Some(IpcMethod::AddBypass)
    } else if same_text(name, "switch_node") {
        Some(IpcMethod::SwitchNode)
    } else {
        None
    }
}

/// Decides which method a request calls: an unknown name is refused, and
/// so is a method that needs the daemon's state where the listener has
/// none (`has_daemon`).
pub fn route(method: &str, has_daemon: bool) -> (r: Result<IpcMethod, IpcError>)
    ensures
        match method_named(method@) {
            None => r matches Err(IpcError::UnknownMethod(n)) && n@ == method@,
            Some(m) => if needs_daemon(m) && !has_daemon {
                r matches Err(IpcError::NoDaemonState)
            } else {
                r == Ok::<IpcMethod, IpcError>(m)
            },
        },
{
    match lookup_method(method) {
        None => Err(IpcError::UnknownMethod(method.to_owned())),
        Some(m) => {
            let needs = !(m == IpcMethod::Status || m == IpcMethod::Shutdown || m == IpcMethod::SwitchNode);
            if needs && !has_daemon {
                Err(IpcError::NoDaemonState)
            } else {
                Ok(m)
            }
        }
    }
}

/// Every method's name leads back to it: a request built with
/// `IpcMethod::name` is routed to that method by a listener that has the
/// daemon's state.
pub proof fn lemma_method_name_routes(m: IpcMethod)
    ensures
        method_named(method_name(m)) == Some(m),
{
    reveal_strlit("status");
    reveal_strlit("shutdown");
    reveal_strlit("kernel.start");
    reveal_strlit("kernel.stop");
    reveal_strlit("kernel.status");
    reveal_strlit("tun_setup");
    reveal_strlit("tun_clear");
    reveal_strlit("tun_context");
    reveal_strlit("add_bypass");
    reveal_strlit("switch_node");
    let names = seq![
        "status"@,
        "shutdown"@,
        "kernel.start"@,
        "kernel.stop"@,
        "kernel.status"@,
        "tun_setup"@,
        "tun_clear"@,
        "tun_context"@,
        "add_bypass"@,
        "switch_node"@,
    ];
    assert forall|i: int, j: int| 0 <= i < j < 10 implies names[i] != names[j] by {
        if names[i].len() == names[j].len() {
            if names[i].len() == 6 || names[i].len() == 8 {
                assert(names[i][1] != names[j][1] || names[i][0] != names[j][0]);
            } else if names[i].len() == 12 || names[i].len() == 11 || names[i].len() == 13 {
                assert(names[i][7] != names[j][7] || names[i][8] != names[j][8] || names[i][9] != names[j][9]);
            } else {
                assert(names[i][4] != names[j][4] || names[i][0] != names[j][0]);
            }
        }
    }
    assert(names[0] == method_name(IpcMethod::Status));
}

/// `invalid request: {reason}`, the answer to a line that is no request.
pub fn invalid_request_message(reason: &str) -> (m: String)
    ensures
        m@ == "invalid request: "@ + reason@,
{
    let mut m = "invalid request: ".to_owned();
    m.append(reason);
    m
}

/// The wire names of the methods: each name a request may give is routed
/// to the method of that name, and every other name to none.
pub proof fn lemma_wire_names()
    ensures
        method_named("status"@) == Some(IpcMethod::Status),
        method_named("shutdown"@) == Some(IpcMethod::Shutdown),
        method_named("kernel.start"@) == Some(IpcMethod::KernelStart),
        method_named("kernel.stop"@) == Some(IpcMethod::KernelStop),
        method_named("kernel.status"@) == Some(IpcMethod::KernelStatus),
        method_named("tun_setup"@) == Some(IpcMethod::TunSetup),
        method_named("tun_clear"@) == Some(IpcMethod::TunClear),
        method_named("tun_context"@) == Some(IpcMethod::TunContext),
        method_named("add_bypass"@) == Some(IpcMethod::AddBypass),
        method_named("switch_node"@) == Some(IpcMethod::SwitchNode),
        method_name(IpcMethod::KernelStart) == "kernel.start"@,
        method_name(IpcMethod::KernelStop) == "kernel.stop"@,
        forall|n: Seq<char>| #[trigger] method_named(n) is Some ==> method_name(method_named(n)->Some_0) == n,
{
    lemma_method_name_routes(IpcMethod::Status);
    lemma_method_name_routes(IpcMethod::Shutdown);
    lemma_method_name_routes(IpcMethod::KernelStart);
    lemma_method_name_routes(IpcMethod::KernelStop);
    lemma_method_name_routes(IpcMethod::KernelStatus);
    lemma_method_name_routes(IpcMethod::TunSetup);
    lemma_method_name_routes(IpcMethod::TunClear);
    lemma_method_name_routes(IpcMethod::TunContext);
    lemma_method_name_routes(IpcMethod::AddBypass);
    lemma_method_name_routes(IpcMethod::SwitchNode);
}

} // verus!
