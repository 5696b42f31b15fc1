//! Storing a subscription's configuration: what a download must be, which
//! profiles are synced, and how their outcomes are gathered.

use vstd::prelude::*;

use crate::profile::crud::{ProfileInfo, ProfileKind, ProfileMeta};
use crate::text::{chars_of, string_of};
use crate::yaml::{lookup, Yaml, YamlV};

verus! {

/// A profile whose configuration was stored.
#[derive(Debug)]
pub struct SyncResult {
    pub name: String,
    /// The size of the stored configuration, in bytes.
    pub bytes: usize,
    /// Where it was stored.
    pub path: String,
}

/// A profile whose sync failed, with the reason.
#[derive(Debug)]
pub struct SyncFailure {
    pub name: String,
    pub error: String,
}

/// The outcome of syncing every remote profile.
#[derive(Debug)]
pub struct SyncAllResult {
    pub synced: Vec<SyncResult>,
    pub failed: Vec<SyncFailure>,
}

impl SyncAllResult {
    pub fn new() -> (r: SyncAllResult)
        ensures
            r.synced@.len() == 0,
            r.failed@.len() == 0,
    {
        SyncAllResult { synced: Vec::new(), failed: Vec::new() }
    }

    pub fn record_success(&mut self, result: SyncResult)
        ensures
            final(self).synced@ == old(self).synced@.push(result),
            final(self).failed@ == old(self).failed@,
    {
        self.synced.push(result);
    }

    pub fn record_failure(&mut self, name: String, error: String)
        ensures
            final(self).synced@ == old(self).synced@,
            final(self).failed@ == old(self).failed@.push(SyncFailure { name, error }),
    {
        self.failed.push(SyncFailure { name, error });
    }
}

/// Why a downloaded configuration is refused.
#[derive(Debug, Clone, Copy, PartialEq, Eq, Structural)]
pub enum ConfigInvalid {
    /// The document is not a mapping.
    NotMapping,
    /// It has neither proxies nor proxy providers.
    NoProxies,
}

impl ConfigInvalid {
    pub fn message(&self) -> (m: &'static str)
        ensures
            m@ == (match *self {
                ConfigInvalid::NotMapping => "invalid config: expected a YAML mapping"@,
                ConfigInvalid::NoProxies => "invalid config: missing `proxies` and `proxy-providers`"@,
            }),
    {
        match self {
            ConfigInvalid::NotMapping => "invalid config: expected a YAML mapping",
            ConfigInvalid::NoProxies => "invalid config: missing `proxies` and `proxy-providers`",
        }
    }
}

/// A configuration is accepted where it is a mapping that has `proxies`
/// or `proxy-providers`.
pub fn validate_config(doc: &Yaml) -> (r: Result<(), ConfigInvalid>)
    ensures
        match doc@ {
            YamlV::Dict(_) => if lookup(doc@, "proxies"@) is Some || lookup(doc@, "proxy-providers"@) is Some {
                r is Ok
            } else {
                r == Err::<(), ConfigInvalid>(ConfigInvalid::NoProxies)
            },
            _ => r == Err::<(), ConfigInvalid>(ConfigInvalid::NotMapping),
        },
{
    match doc {
        Yaml::Mapping(_) => {
            if doc.get("proxies").is_some() || doc.get("proxy-providers").is_some() {
                Ok(())
            } else {
                Err(ConfigInvalid::NoProxies)
            }
        }
        _ => Err(ConfigInvalid::NotMapping),
    }
}

/// `s` without the byte-order marks at its start.
pub open spec fn without_boms(s: Seq<char>) -> Seq<char>
    decreases s.len(),
{
    if s.len() > 0 && s[0] == '\u{feff}' {
        without_boms(s.drop_first())
    } else {
        s
    }
}

/// Why a subscription gave no configuration.
#[derive(Debug)]
pub enum SyncError {
    /// `profile {name} has no url`.
    NoUrl(String),
    /// The response was empty.
    EmptyResponse,
}

impl SyncError {
    pub fn message(&self) -> (m: String)
        ensures
            match self {
                SyncError::NoUrl(n) => m@ == "profile "@ + n@ + " has no url"@,
                SyncError::EmptyResponse => m@ == "empty response from subscription URL"@,
            },
    {
        match self {
            SyncError::NoUrl(n) => {
                let mut m = "profile ".to_owned();
                m.append(n.as_str());
                m.append(" has no url");
                m
            }
            SyncError::EmptyResponse => "empty response from subscription URL".to_owned(),
        }
    }
}

/// The configuration in a subscription's response: refused where the
/// response is empty, else the text without its leading byte-order marks.
pub fn response_config(text: &str) -> (r: Result<String, SyncError>)
    ensures
        text@.len() == 0 ==> (r matches Err(SyncError::EmptyResponse)),
        text@.len() > 0 ==> (r matches Ok(c) && c@ == without_boms(text@)),
{
    let mut cs = chars_of(text);
    if cs.len() == 0 {
        return Err(SyncError::EmptyResponse);
    }
    let mut i: usize = 0;
    assert(cs@.skip(0) =~= cs@);
    while i < cs.len() && cs[i] == '\u{feff}'
        invariant
            cs@ == text@,
            i <= cs@.len(),
            without_boms(text@) == without_boms(cs@.skip(i as int)),
        decreases cs@.len() - i,
    {
        assert(cs@.skip(i as int).drop_first() =~= cs@.skip(i + 1));
        i = i + 1;
    }
    assert(without_boms(cs@.skip(i as int)) == cs@.skip(i as int));
    let rest = cs.split_off(i);
    assert(rest@ =~= text@.skip(i as int));
    Ok(string_of(rest.as_slice()))
}

/// The address a profile is synced from.
pub fn sync_url(info: &ProfileInfo) -> (r: Result<String, SyncError>)
    ensures
        match info.meta.url {
            Some(u) => r matches Ok(s) && s@ == u@,
            None => r matches Err(SyncError::NoUrl(n)) && n@ == info.name@,
        },
{
    match &info.meta.url {
        Some(u) => Ok(u.clone()),
        None => Err(SyncError::NoUrl(info.name.clone())),
    }
}

/// The profiles that syncing all of them syncs, in order: every profile
/// that is not a merge.
pub open spec fn sync_target_names(profiles: Seq<ProfileInfo>) -> Seq<Seq<char>>
    decreases profiles.len(),
{
    if profiles.len() == 0 {
        Seq::empty()
    } else {
        let rest = sync_target_names(profiles.drop_last());
        if profiles.last().meta.kind == ProfileKind::Merge {
            rest
        } else {
            rest.push(profiles.last().name@)
        }
    }
}

/// See `sync_target_names`.
pub fn sync_targets(profiles: &Vec<ProfileInfo>) -> (r: Vec<String>)
    ensures
        crate::text::strings_view(r@) == sync_target_names(profiles@),
{
    let mut out: Vec<String> = Vec::new();
    let mut i: usize = 0;
    while i < profiles.len()
        invariant
            i <= profiles@.len(),
            crate::text::strings_view(out@) == sync_target_names(profiles@.take(i as int)),
        decreases profiles@.len() - i,
    {
        proof {
            assert(profiles@.take(i + 1).drop_last() =~= profiles@.take(i as int));
            assert(profiles@.take(i + 1).last() == profiles@[i as int]);
        }
        let p = &profiles[i];
        if p.meta.kind != ProfileKind::Merge {
            let ghost before = crate::text::strings_view(out@);
            out.push(p.name.clone());
            assert(crate::text::strings_view(out@) =~= before.push(p.name@));
        }
        i = i + 1;
    }
    assert(profiles@.take(profiles@.len() as int) =~= profiles@);
    out
}

/// A profile's record after a sync at `now`.
pub fn mark_synced(meta: &mut ProfileMeta, now: u64)
    ensures
        final(meta).updated_at == Some(now),
        final(meta).kind == old(meta).kind,
        final(meta).url == old(meta).url,
        final(meta).user_agent == old(meta).user_agent,
        final(meta).sources == old(meta).sources,
        final(meta).created_at == old(meta).created_at,
{
    meta.updated_at = Some(now);
}

} // verus!
