//! Profiles: their records, and the decisions of adding, listing, reading,
//! removing and activating them.

use vstd::prelude::*;

use crate::paths::{join, mihomo_config_file, valid_component, validate_component, InvalidComponent};
use crate::sort::{keys_sorted, sort_by_key, TextKeyed};
use crate::text::{decimal, decimal_string, name_in_file, opt_text, read_name, same_text};

verus! {

/// Where a profile's configuration comes from.
#[derive(Debug, Clone, Copy, PartialEq, Eq, Structural)]
pub enum ProfileKind {
    /// Downloaded from a subscription address.
    Remote,
    /// Merged from other profiles.
    Merge,
}

/// What is recorded of a profile in its `meta.json`.
#[derive(Debug)]
pub struct ProfileMeta {
    pub kind: ProfileKind,
    pub url: Option<String>,
    pub user_agent: Option<String>,
    /// The profiles a merged profile was made from.
    pub sources: Vec<String>,
    pub created_at: u64,
    pub updated_at: Option<u64>,
}

/// A profile as it is shown.
#[derive(Debug)]
pub struct ProfileInfo {
    pub name: String,
    pub meta: ProfileMeta,
    pub active: bool,
    pub has_raw: bool,
    pub has_processed: bool,
}

impl TextKeyed for ProfileInfo {
    open spec fn key_view(&self) -> Seq<char> {
        self.name@
    }

    fn key(&self) -> (r: &str) {
        self.name.as_str()
    }
}

/// Seconds since the Unix epoch as the system clock gives them.
#[verifier::external_body]
fn clock_secs() -> (r: Option<u64>) {
    match std::time::SystemTime::now().duration_since(std::time::UNIX_EPOCH) {
        Ok(d) => Some(d.as_secs()),
        Err(_) => None,
    }
}

/// A clock reading in seconds since the Unix epoch: the reading itself, or 0
/// where the clock stood before the epoch.
pub fn secs_or_zero(reading: Option<u64>) -> (r: u64)
    ensures
        r == match reading {
            Some(s) => s,
            None => 0,
        },
{
    match reading {
        Some(s) => s,
        None => 0,
    }
}

/// The current time in seconds since the Unix epoch; 0 where the clock is
/// set before it. The reading depends on the clock and is not stated;
/// `secs_or_zero` says what is returned for each reading.
pub fn now_secs() -> (r: u64) {
    secs_or_zero(clock_secs())
}

/// How long ago `secs` was at `now`, in the largest whole unit: seconds
/// under a minute, minutes under an hour, hours under a day, else days. A
/// time in the future counts as now.
pub open spec fn age_text(now: u64, secs: u64) -> Seq<char> {
    let elapsed: nat = if now >= secs { (now - secs) as nat } else { 0 };
    if elapsed < 60 {
        decimal(elapsed) + "s"@
    } else if elapsed < 3600 {
        decimal(elapsed / 60) + "m"@
    } else if elapsed < 86400 {
        decimal(elapsed / 3600) + "h"@
    } else {
        decimal(elapsed / 86400) + "d"@
    }
}

/// See `age_text`.
pub fn age_since(now: u64, secs: u64) -> (r: String)
    ensures
        r@ == age_text(now, secs),
{
    let elapsed = now.saturating_sub(secs);
    let (n, unit) = if elapsed < 60 {
        (elapsed, "s")
    } else if elapsed < 3600 {
        (elapsed / 60, "m")
    } else if elapsed < 86400 {
        (elapsed / 3600, "h")
    } else {
        (elapsed / 86400, "d")
    };
    let mut r = decimal_string(n);
    r.append(unit);
    r
}

/// How long ago `secs` was, by the system clock (see `age_text`); where
/// the clock cannot be read, `secs` counts as now.
pub fn age(secs: u64) -> (r: String)
    ensures
        exists|now: u64| r@ == #[trigger] age_text(now, secs),
{
    let now = match clock_secs() {
        Some(n) => n,
        None => secs,
    };
    age_since(now, secs)
}

/// Why a profile operation was refused.
#[derive(Debug)]
pub enum ProfileError {
    /// The name is no plain path component.
    Invalid(InvalidComponent),
    /// `profile already exists: {name}`.
    AlreadyExists(String),
    /// `profile not found: {name}`.
    NotFound(String),
    /// The record could not be read or parsed; holds the name and what was
    /// reported.
    InvalidMeta { name: String, error: String },
    /// The profile has no stored configuration yet.
    NoConfig(String),
    /// The stored configuration could not be read; holds what was reported.
    Read(String),
    /// No profile was named and none is active.
    NoActive,
}

impl ProfileError {
    pub fn message(&self) -> (m: String)
        ensures
            match self {
                ProfileError::Invalid(e) => m@ == "invalid "@ + e.label@ + ": "@ + e.value@,
                ProfileError::AlreadyExists(n) => m@ == "profile already exists: "@ + n@,
                ProfileError::NotFound(n) => m@ == "profile not found: "@ + n@,
                ProfileError::InvalidMeta { name, error } => m@ == "invalid meta.json for profile "@ + name@
                    + ": "@ + error@,
                ProfileError::NoConfig(n) => m@ == "no config stored for profile "@ + n@
                    + " (run `bnvr profile sync` first)"@,
                ProfileError::Read(e) => m@ == e@,
                ProfileError::NoActive => m@ == "no active profile (run `bnvr profile use <name>`)"@,
            },
    {
        match self {
            ProfileError::Invalid(e) => e.message(),
            ProfileError::AlreadyExists(n) => {
                let mut m = "profile already exists: ".to_owned();
                m.append(n.as_str());
                m
            }
            ProfileError::NotFound(n) => {
                let mut m = "profile not found: ".to_owned();
                m.append(n.as_str());
                m
            }
            ProfileError::InvalidMeta { name, error } => {
                let mut m = "invalid meta.json for profile ".to_owned();
                m.append(name.as_str());
                m.append(": ");
                m.append(error.as_str());
                m
            }
            ProfileError::NoConfig(n) => {
                let mut m = "no config stored for profile ".to_owned();
                m.append(n.as_str());
                m.append(" (run `bnvr profile sync` first)");
                m
            }
            ProfileError::Read(e) => e.clone(),
            ProfileError::NoActive => "no active profile (run `bnvr profile use <name>`)".to_owned(),
        }
    }
}

/// Checks a profile name: it must be a plain path component.
fn check_name(name: &str) -> (r: Result<(), ProfileError>)
    ensures
        r is Ok <==> valid_component(name@),
        r is Err ==> (r matches Err(ProfileError::Invalid(e)) && e.label@ == "profile name"@ && e.value@ == name@),
{
    match validate_component(name, "profile name") {
        Ok(()) => Ok(()),
        Err(e) => Err(ProfileError::Invalid(e)),
    }
}

/// Checks that a profile named `name` exists (as the file system reports
/// for its directory), after checking the name.
fn check_exists(name: &str, exists: bool) -> (r: Result<(), ProfileError>)
    ensures
        r is Ok <==> valid_component(name@) && exists,
        !valid_component(name@) ==> (r matches Err(ProfileError::Invalid(e)) && e.value@ == name@),
        valid_component(name@) && !exists ==> (r matches Err(ProfileError::NotFound(n)) && n@ == name@),
{
    check_name(name)?;
    if !exists {
        return Err(ProfileError::NotFound(name.to_owned()));
    }
    Ok(())
}

fn copy_opt(s: Option<&str>) -> (r: Option<String>)
    ensures
        match s {
            Some(t) => r matches Some(u) && u@ == t@,
            None => r is None,
        },
{
    match s {
        Some(t) => Some(t.to_owned()),
        None => None,
    }
}

/// The record of a new remote profile `name` made at `now`, where no
/// profile has the name yet (`already_exists` says whether one has).
pub fn add(name: &str, url: &str, user_agent: Option<&str>, already_exists: bool, now: u64) -> (r: Result<ProfileMeta, ProfileError>)
    ensures
        r is Ok <==> valid_component(name@) && !already_exists,
        !valid_component(name@) ==> (r matches Err(ProfileError::Invalid(e)) && e.value@ == name@),
        valid_component(name@) && already_exists ==> (r matches Err(ProfileError::AlreadyExists(n)) && n@ == name@),
        r matches Ok(m) ==> m.kind == ProfileKind::Remote && (m.url matches Some(u) && u@ == url@)
            && (match user_agent {
                Some(a) => m.user_agent matches Some(b) && b@ == a@,
                None => m.user_agent is None,
            }) && m.sources@.len() == 0 && m.created_at == now && m.updated_at is None,
{
    check_name(name)?;
    if already_exists {
        return Err(ProfileError::AlreadyExists(name.to_owned()));
    }
    Ok(ProfileMeta {
        kind: ProfileKind::Remote,
        url: Some(url.to_owned()),
        user_agent: copy_opt(user_agent),
        sources: Vec::new(),
        created_at: now,
        updated_at: None,
    })
}

/// Checks a request to delete a profile: the name, then that it exists.
pub fn del(name: &str, exists: bool) -> (r: Result<(), ProfileError>)
    ensures
        r is Ok <==> valid_component(name@) && exists,
        !valid_component(name@) ==> (r matches Err(ProfileError::Invalid(e)) && e.value@ == name@),
        valid_component(name@) && !exists ==> (r matches Err(ProfileError::NotFound(n)) && n@ == name@),
{
    check_exists(name, exists)
}

/// Whether `name` is the active profile (`active`, see `get_active`):
/// deleting it then clears the marker, and re-storing its configuration
/// rewrites the kernel's configuration.
pub fn is_active(active: Option<&str>, name: &str) -> (r: bool)
    ensures
        r == (opt_text(active) == Some(name@)),
{
    match active {
        Some(a) => same_text(a, name),
        None => false,
    }
}

/// An entry of the profiles directory, with what the file system says of it.
#[derive(Debug)]
pub struct ProfileEntry {
    pub name: String,
    pub is_dir: bool,
    /// The profile's record, where `meta.json` could be read and parsed.
    pub meta: Option<ProfileMeta>,
    pub has_raw: bool,
    pub has_processed: bool,
}

/// A directory whose name does not start with `.` and whose record could
/// be read is a listed profile.
pub open spec fn is_listed(e: ProfileEntry) -> bool {
    e.is_dir && !(e.name@.len() > 0 && e.name@[0] == '.') && e.meta is Some
}

pub open spec fn profile_row(e: ProfileEntry, active: Option<Seq<char>>) -> ProfileInfo {
    ProfileInfo {
        name: e.name,
        meta: e.meta->Some_0,
        active: active == Some(e.name@),
        has_raw: e.has_raw,
        has_processed: e.has_processed,
    }
}

/// The listed profiles among `entries`, in directory order.
pub open spec fn profile_rows(entries: Seq<ProfileEntry>, active: Option<Seq<char>>) -> Seq<ProfileInfo>
    decreases entries.len(),
{
    if entries.len() == 0 {
        Seq::empty()
    } else {
        let rest = profile_rows(entries.drop_last(), active);
        if is_listed(entries.last()) {
            rest.push(profile_row(entries.last(), active))
        } else {
            rest
        }
    }
}

/// Lists the profiles among the entries of the profiles directory, sorted
/// by name, marking the active one. An entry whose record could not be read
/// is left out.
pub fn list(entries: Vec<ProfileEntry>, active: Option<&str>) -> (r: Vec<ProfileInfo>)
    ensures
        keys_sorted(r@),
        r@.to_multiset() =~= profile_rows(entries@, opt_text(active)).to_multiset(),
{
    let ghost act = opt_text(active);
    let ghost all = entries@;
    let mut rows: Vec<ProfileInfo> = Vec::new();
    let mut rest = entries;
    let ghost mut done: int = 0;
    assert(rest@ =~= all.skip(0));
    while rest.len() > 0
        invariant
            act == opt_text(active),
            0 <= done <= all.len(),
            rest@ =~= all.skip(done),
            rows@ =~= profile_rows(all.take(done), act),
        decreases rest@.len(),
    {
        let e = rest.remove(0);
        proof {
            assert(e == all[done]);
            assert(all.take(done + 1).drop_last() =~= all.take(done));
            assert(all.take(done + 1).last() == all[done]);
            assert(all.skip(done + 1) =~= all.skip(done).remove(0));
        }
        let hidden = e.name.as_str().unicode_len() > 0 && e.name.as_str().get_char(0) == '.';
        if e.is_dir && !hidden {
            let act_now = is_active(active, e.name.as_str());
            let ghost row = profile_row(e, act);
            match e.meta {
                Some(meta) => {
                    let info = ProfileInfo {
                        name: e.name,
                        meta,
                        active: act_now,
                        has_raw: e.has_raw,
                        has_processed: e.has_processed,
                    };
                    assert(info == row);
                    rows.push(info);
                }
                None => {}
            }
        }
        proof {
            done = done + 1;
        }
    }
    assert(all.take(all.len() as int) =~= all);
    sort_by_key(rows)
}

/// A profile as it is shown, from what was read of it: the name is checked,
/// then that the profile exists, then its record (`meta`, or what reading
/// or parsing it reported).
pub fn get(name: &str, exists: bool, meta: Result<ProfileMeta, String>, active: Option<&str>, has_raw: bool, has_processed: bool) -> (r: Result<ProfileInfo, ProfileError>)
    ensures
        !valid_component(name@) ==> (r matches Err(ProfileError::Invalid(e)) && e.value@ == name@),
        valid_component(name@) && !exists ==> (r matches Err(ProfileError::NotFound(n)) && n@ == name@),
        valid_component(name@) && exists ==> match meta {
            Err(e) => r matches Err(ProfileError::InvalidMeta { name: n, error: e2 }) && n@ == name@ && e2 == e,
            Ok(m) => r matches Ok(info) && info.name@ == name@ && info.meta == m
                && info.active == (opt_text(active) == Some(name@)) && info.has_raw == has_raw
                && info.has_processed == has_processed,
        },
{
    check_exists(name, exists)?;
    match meta {
        Err(e) => Err(ProfileError::InvalidMeta { name: name.to_owned(), error: e }),
        Ok(m) => Ok(ProfileInfo {
            name: name.to_owned(),
            meta: m,
            active: is_active(active, name),
            has_raw,
            has_processed,
        }),
    }
}

/// What reading a profile's stored configuration (`raw.yml`) gave.
#[derive(Debug)]
pub enum RawRead {
    Content(String),
    /// The file does not exist.
    Missing,
    /// Reading failed otherwise; holds what was reported.
    Failed(String),
}

/// The configuration a profile gives the kernel: the one its plugin
/// produced (`processed`) where there is one, else the stored one.
pub fn effective_config(name: &str, processed: Option<String>, raw: RawRead) -> (r: Result<String, ProfileError>)
    ensures
        match processed {
            Some(p) => r matches Ok(c) && c == p,
            None => match raw {
                RawRead::Content(c) => r matches Ok(c2) && c2 == c,
                RawRead::Missing => r matches Err(ProfileError::NoConfig(n)) && n@ == name@,
                RawRead::Failed(e) => r matches Err(ProfileError::Read(e2)) && e2 == e,
            },
        },
{
    match processed {
        Some(p) => Ok(p),
        None => match raw {
            RawRead::Content(c) => Ok(c),
            RawRead::Missing => Err(ProfileError::NoConfig(name.to_owned())),
            RawRead::Failed(e) => Err(ProfileError::Read(e)),
        },
    }
}

/// The active profile, from the content of the active-profile file where
/// it could be read: its trimmed text, where that is not empty.
pub fn get_active(content: Option<&str>) -> (r: Option<String>)
    ensures
        match r {
            Some(v) => name_in_file(opt_text(content)) == Some(v@),
            None => name_in_file(opt_text(content)) is None,
        },
{
    read_name(content)
}

/// Checks a request to make `name` the active profile: the name, then that
/// the profile exists. The caller then writes the name to the marker file.
pub fn set_active(name: &str, exists: bool) -> (r: Result<(), ProfileError>)
    ensures
        r is Ok <==> valid_component(name@) && exists,
        !valid_component(name@) ==> (r matches Err(ProfileError::Invalid(e)) && e.value@ == name@),
        valid_component(name@) && !exists ==> (r matches Err(ProfileError::NotFound(n)) && n@ == name@),
{
    check_exists(name, exists)
}

/// Activating a profile: it is checked as `set_active` does, and the
/// kernel's configuration file is where its effective configuration is
/// then written.
pub fn activate(home: &str, name: &str, exists: bool) -> (r: Result<String, ProfileError>)
    ensures
        r is Ok <==> valid_component(name@) && exists,
        r matches Ok(p) ==> p@ == join(home@, "config.yaml"@),
        !valid_component(name@) ==> (r matches Err(ProfileError::Invalid(e)) && e.value@ == name@),
        valid_component(name@) && !exists ==> (r matches Err(ProfileError::NotFound(n)) && n@ == name@),
{
    set_active(name, exists)?;
    Ok(mihomo_config_file(home))
}

/// The profile a command applies to: the one named, else the active one.
pub fn resolve(name: Option<&str>, active: Option<String>) -> (r: Result<String, ProfileError>)
    ensures
        match name {
            Some(n) => r matches Ok(s) && s@ == n@,
            None => match active {
                Some(a) => r matches Ok(s) && s == a,
                None => r matches Err(ProfileError::NoActive),
            },
        },
{
    match name {
        Some(n) => Ok(n.to_owned()),
        None => match active {
            Some(a) => Ok(a),
            None => Err(ProfileError::NoActive),
        },
    }
}

/// Whether storing a new configuration for `name` must also rewrite the
/// kernel's configuration: it must where `name` is the active profile.
pub fn refresh_active_config(name: &str, active: Option<&str>) -> (r: bool)
    ensures
        r == (opt_text(active) == Some(name@)),
{
    is_active(active, name)
}

} // verus!
