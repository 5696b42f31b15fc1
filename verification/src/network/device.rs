//! The TUN device's fixed settings, the check on its MTU, and what a
//! failure to create it is reported as.

use vstd::prelude::*;

use crate::text::{chars_of, contains_seq, contains_text, decimal, decimal_string, string_of};

verus! {

/// The device's name: `bnvr0` on Windows, else `tun-bnvr0`.
pub fn tun_device_name(windows: bool) -> (r: &'static str)
    ensures
        r@ == (if windows {
            "bnvr0"@
        } else {
            "tun-bnvr0"@
        }),
{
    if windows {
        "bnvr0"
    } else {
        "tun-bnvr0"
    }
}

pub const TUN_MTU: u16 = 9000;

pub const TUN_IPV4: &'static str = "198.18.0.1";

pub const TUN_IPV4_NETMASK: &'static str = "255.255.0.0";

/// A TUN MTU is accepted from 1280 up to 65535.
pub open spec fn mtu_valid(mtu: u16) -> bool {
    1280 <= mtu && mtu <= 65535
}

/// An MTU outside the accepted range.
#[derive(Debug, Clone, Copy, PartialEq, Eq, Structural)]
pub struct MtuError {
    pub mtu: u16,
}

impl MtuError {
    /// `invalid TUN MTU {mtu}: expected 1280..=65535`.
    pub fn message(&self) -> (m: String)
        ensures
            m@ == "invalid TUN MTU "@ + decimal(self.mtu as nat) + ": expected 1280..=65535"@,
    {
        let mut m = "invalid TUN MTU ".to_owned();
        let n = decimal_string(self.mtu as u64);
        m.append(n.as_str());
        m.append(": expected 1280..=65535");
        m
    }
}

pub fn validate_mtu(mtu: u16) -> (r: Result<(), MtuError>)
    ensures
        r is Ok <==> mtu_valid(mtu),
        r matches Err(e) ==> e.mtu == mtu,
{
    if mtu < 1280 {
        Err(MtuError { mtu })
    } else {
        Ok(())
    }
}

/// `char::to_ascii_lowercase`.
pub open spec fn ascii_lower(c: char) -> char {
    if 'A' <= c && c <= 'Z' {
        ((c as u32) + 32) as char
    } else {
        c
    }
}

pub open spec fn lowercase(s: Seq<char>) -> Seq<char> {
    s.map_values(|c: char| ascii_lower(c))
}

fn lower_char(c: char) -> (r: char)
    ensures
        r == ascii_lower(c),
{
    if 'A' <= c && c <= 'Z' {
        let code: u8 = (c as u32 + 32) as u8;
        code as char
    } else {
        c
    }
}

/// `str::to_ascii_lowercase`.
pub fn to_ascii_lowercase(s: &str) -> (r: String)
    ensures
        r@ == lowercase(s@),
{
    let cs = chars_of(s);
    let mut out: Vec<char> = Vec::new();
    let mut i: usize = 0;
    while i < cs.len()
        invariant
            cs@ == s@,
            i <= cs@.len(),
            out@ == lowercase(cs@.take(i as int)),
        decreases cs@.len() - i,
    {
        out.push(lower_char(cs[i]));
        assert(lowercase(cs@.take(i + 1)) =~= lowercase(cs@.take(i as int)).push(ascii_lower(cs@[i as int])));
        i = i + 1;
    }
    assert(cs@.take(cs@.len() as int) =~= cs@);
    string_of(out.as_slice())
}

/// What a failure to create the device is reported as.
#[derive(Debug)]
pub enum CreateFailure {
    /// The device exists already, or is in use.
    AlreadyExists,
    /// The process lacks the privileges.
    NeedsPrivileges,
    /// Any other failure, reported as the device library worded it.
    Other(String),
}

impl CreateFailure {
    pub fn message(&self) -> (m: String)
        ensures
            m@ == create_failure_message(*self),
    {
        match self {
            CreateFailure::AlreadyExists => "device already exists, run 'bnvr network tun clear' first".to_owned(),
            CreateFailure::NeedsPrivileges => "requires administrator (Windows) or CAP_NET_ADMIN/root (Linux)".to_owned(),
            CreateFailure::Other(m) => m.clone(),
        }
    }
}

pub open spec fn create_failure_message(f: CreateFailure) -> Seq<char> {
    match f {
        CreateFailure::AlreadyExists => "device already exists, run 'bnvr network tun clear' first"@,
        CreateFailure::NeedsPrivileges => "requires administrator (Windows) or CAP_NET_ADMIN/root (Linux)"@,
        CreateFailure::Other(m) => m@,
    }
}

/// How the device library's error text is read: words about existence or
/// a busy device first, then words about permission, regardless of case.
pub open spec fn failure_kind(message: Seq<char>) -> int {
    let lower = lowercase(message);
    if contains_seq(lower, "exist"@) || contains_seq(lower, "in use"@) || contains_seq(lower, "busy"@) {
        0
    } else if contains_seq(lower, "permission"@) || contains_seq(lower, "access"@) || contains_seq(
        lower,
        "privilege"@,
    ) {
        1
    } else {
        2
    }
}

/// Reads the device library's error text (see `failure_kind`).
pub fn map_create_error(message: &str) -> (r: CreateFailure)
    ensures
        failure_kind(message@) == 0 ==> r is AlreadyExists,
        failure_kind(message@) == 1 ==> r is NeedsPrivileges,
        failure_kind(message@) == 2 ==> (r matches CreateFailure::Other(m) && m@ == message@),
{
    let lower = to_ascii_lowercase(message);
    let l = lower.as_str();
    if contains_text(l, "exist") || contains_text(l, "in use") || contains_text(l, "busy") {
        CreateFailure::AlreadyExists
    } else if contains_text(l, "permission") || contains_text(l, "access") || contains_text(l, "privilege") {
        CreateFailure::NeedsPrivileges
    } else {
        CreateFailure::Other(message.to_owned())
    }
}

} // verus!
