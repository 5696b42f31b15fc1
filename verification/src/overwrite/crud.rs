//! The plugins' records and the decisions of creating, updating, listing,
//! removing and activating them.

use vstd::prelude::*;

use crate::paths::{valid_component, validate_component, InvalidComponent};
use crate::sort::{keys_sorted, sort_by_key, TextKeyed};
use crate::text::{split_char, split_on, strings_view, contains_seq, contains_text, decimal, decimal_string, name_in_file, opt_text, read_name, same_text, trim, trimmed};
use crate::utilities::{duration_result, parse_duration, validate_auto_sync_timeout, DurationError};

verus! {

/// Where a plugin's code comes from.
#[derive(Debug, Clone, Copy, PartialEq, Eq, Structural)]
pub enum PluginKind {
    /// A Git repository, cloned and pulled.
    Remote,
    /// A local directory, copied once.
    Local,
}

/// What is recorded of a plugin in its `meta.json`.
#[derive(Debug)]
pub struct PluginMeta {
    pub kind: PluginKind,
    /// The repository address of a remote plugin, the source directory of
    /// a local one, empty for one made by `init`.
    pub link: String,
    pub created_at: u64,
    pub updated_at: Option<u64>,
    pub auto_sync: Option<String>,
    pub timeout: Option<String>,
}

/// A plugin as it is listed.
#[derive(Debug)]
pub struct PluginInfo {
    pub name: String,
    pub username: String,
    pub active: bool,
    pub has_venv: bool,
    pub has_entry: bool,
    pub kind: PluginKind,
    pub meta: Option<PluginMeta>,
}

impl TextKeyed for PluginInfo {
    open spec fn key_view(&self) -> Seq<char> {
        self.username@
    }

    fn key(&self) -> (r: &str) {
        self.username.as_str()
    }
}

/// The entry script a new plugin starts with: a hook function for each
/// hook, and a main that reads a request from standard input and writes
/// the rewritten configuration.
pub const ENTRY_TEMPLATE: &'static str = "import sys\nimport json\n\n\ndef preprocess(config):\n    \"\"\"Runs before Mihomo receives the config.\"\"\"\n    return config\n\n\ndef postprocess(config):\n    \"\"\"Runs after Mihomo processes the config.\"\"\"\n    return config\n\n\ndef on_node_switch(config, node_name):\n    \"\"\"Runs when switching proxy nodes.\"\"\"\n    return config\n\n\ndef on_network_dropped(config):\n    \"\"\"Runs when network drops.\"\"\"\n    return config\n\n\nif __name__ == \"__main__\":\n    request = json.load(sys.stdin)\n    hook = request[\"hook\"]\n    config = request[\"config\"]\n    extra = request.get(\"extra\", {})\n\n    handlers = {\n        \"preprocess\": preprocess,\n        \"postprocess\": postprocess,\n        \"on_node_switch\": lambda c: on_node_switch(c, extra.get(\"node_name\", \"\")),\n        \"on_network_dropped\": on_network_dropped,\n    }\n\n    if hook not in handlers:\n        print(json.dumps({\"config\": config, \"error\": f\"unknown hook: {hook}\"}))\n        sys.exit(1)\n\n    result = handlers[hook](config)\n    print(json.dumps({\"config\": result}))\n";

/// Why a plugin operation was refused.
#[derive(Debug)]
pub enum PluginError {
    /// The name is no plain path component.
    Invalid(InvalidComponent),
    /// `plugin already exists: {name}`.
    AlreadyExists(String),
    /// `plugin not found: {name}`.
    NotFound(String),
    /// The auto-sync interval or timeout does not parse.
    Duration(DurationError),
    /// `git clone failed: {stderr}`, with Git's error output trimmed.
    CloneFailed(String),
    /// Git is not installed.
    GitMissing,
    /// `local plugin directory not found: {link}`.
    LocalSourceMissing(String),
    /// The copy would land inside the directory it copies.
    DestinationInsideSource,
    /// Local plugins have no repository to pull.
    LocalNotUpdatable,
}

impl PluginError {
    pub fn message(&self) -> (m: String)
        ensures
            match self {
                PluginError::Invalid(e) => m@ == "invalid "@ + e.label@ + ": "@ + e.value@,
                PluginError::AlreadyExists(n) => m@ == "plugin already exists: "@ + n@,
                PluginError::NotFound(n) => m@ == "plugin not found: "@ + n@,
                PluginError::Duration(e) => m@ == crate::utilities::duration_error_message(e@),
                PluginError::CloneFailed(s) => m@ == "git clone failed: "@ + s@,
                PluginError::GitMissing => m@ == "git not found; install git to use remote plugins"@,
                PluginError::LocalSourceMissing(l) => m@ == "local plugin directory not found: "@ + l@,
                PluginError::DestinationInsideSource => m@ == "local plugin destination cannot be inside source directory"@,
                PluginError::LocalNotUpdatable => m@ == "local plugins cannot be updated via Git"@,
            },
    {
        match self {
            PluginError::Invalid(e) => e.message(),
            PluginError::AlreadyExists(n) => {
                let mut m = "plugin already exists: ".to_owned();
                m.append(n.as_str());
                m
            }
            PluginError::NotFound(n) => {
                let mut m = "plugin not found: ".to_owned();
                m.append(n.as_str());
                m
            }
            PluginError::Duration(e) => e.message(),
            PluginError::CloneFailed(s) => {
                let mut m = "git clone failed: ".to_owned();
                m.append(s.as_str());
                m
            }
            PluginError::GitMissing => "git not found; install git to use remote plugins".to_owned(),
            PluginError::LocalSourceMissing(l) => {
                let mut m = "local plugin directory not found: ".to_owned();
                m.append(l.as_str());
                m
            }
            PluginError::DestinationInsideSource => "local plugin destination cannot be inside source directory".to_owned(),
            PluginError::LocalNotUpdatable => "local plugins cannot be updated via Git".to_owned(),
        }
    }
}

/// Checks a plugin name: it must be a plain path component.
fn check_name(username: &str) -> (r: Result<(), PluginError>)
    ensures
        r is Ok <==> valid_component(username@),
        r matches Err(PluginError::Invalid(e)) ==> e.label@ == "username"@ && e.value@ == username@,
        r is Err ==> r matches Err(PluginError::Invalid(_)),
{
    match validate_component(username, "username") {
        Ok(()) => Ok(()),
        Err(e) => Err(PluginError::Invalid(e)),
    }
}

/// Creates the record of a new local plugin named `username`, made at
/// `now`, whose directory does not exist yet (`already_exists` says whether
/// it does). The caller then creates the directory, the entry script
/// (`ENTRY_TEMPLATE`), the record and the virtual environment.
pub fn init(username: &str, already_exists: bool, now: u64) -> (r: Result<PluginMeta, PluginError>)
    ensures
        r is Ok <==> valid_component(username@) && !already_exists,
        r matches Ok(m) ==> m.kind == PluginKind::Local && m.link@ == Seq::<char>::empty()
            && m.created_at == now && m.updated_at is None && m.auto_sync is None && m.timeout is None,
        !valid_component(username@) ==> (r matches Err(PluginError::Invalid(e)) && e.value@ == username@),
        valid_component(username@) && already_exists ==> (r matches Err(PluginError::AlreadyExists(n)) && n@ == username@),
{
    check_name(username)?;
    if already_exists {
        return Err(PluginError::AlreadyExists(username.to_owned()));
    }
    Ok(PluginMeta {
        kind: PluginKind::Local,
        link: String::new(),
        created_at: now,
        updated_at: None,
        auto_sync: None,
        timeout: None,
    })
}

/// Checks a request to add a plugin: the name, then the auto-sync interval
/// and timeout, then that no plugin has the name. The result says whether
/// the timeout will stand in for a shorter interval (see
/// `validate_auto_sync_timeout`).
pub fn check_add(username: &str, auto_sync: Option<&str>, timeout: Option<&str>, already_exists: bool) -> (r: Result<bool, PluginError>)
    ensures
        !valid_component(username@) ==> (r matches Err(PluginError::Invalid(e)) && e.value@ == username@),
        valid_component(username@) ==> match auto_sync {
            Some(a) if duration_result(a@) is Err => r matches Err(PluginError::Duration(e)) && e@ == duration_result(a@)->Err_0,
            _ => match timeout {
                Some(t) if duration_result(t@) is Err => r matches Err(PluginError::Duration(e)) && e@ == duration_result(t@)->Err_0,
                _ => if already_exists {
                    r matches Err(PluginError::AlreadyExists(n)) && n@ == username@
                } else {
                    r == Ok::<bool, PluginError>(
                        match (auto_sync, timeout) {
                            (Some(a), Some(t)) => duration_result(a@)->Ok_0 < duration_result(t@)->Ok_0,
                            _ => false,
                        },
                    )
                },
            },
        },
{
    check_name(username)?;
    let warn = match validate_auto_sync_timeout(auto_sync, timeout) {
        Ok(w) => w,
        Err(e) => return Err(PluginError::Duration(e)),
    };
    if already_exists {
        return Err(PluginError::AlreadyExists(username.to_owned()));
    }
    Ok(warn)
}

/// The repository a remote plugin is cloned from: the link itself where it
/// holds `://`, else a GitHub repository `owner/name`.
pub open spec fn remote_url_of(link: Seq<char>) -> Seq<char> {
    if contains_seq(link, "://"@) {
        link
    } else {
        "https://github.com/"@ + link
    }
}

/// Resolving a resolved link changes nothing: the repository address it
/// gives already names a scheme.
pub proof fn lemma_remote_url_idempotent(link: Seq<char>)
    ensures
        remote_url_of(remote_url_of(link)) == remote_url_of(link),
{
    if !contains_seq(link, "://"@) {
        reveal_strlit("https://github.com/");
        reveal_strlit("://");
        let u = "https://github.com/"@ + link;
        assert(u.subrange(5, 8) =~= "://"@);
        assert(crate::text::occurs_at(u, "://"@, 5));
    }
}

/// See `remote_url_of`.
pub fn remote_url(link: &str) -> (r: String)
    ensures
        r@ == remote_url_of(link@),
{
    if contains_text(link, "://") {
        link.to_owned()
    } else {
        let mut u = "https://github.com/".to_owned();
        u.append(link);
        u
    }
}

/// The error a failed `git clone` is reported as, from Git's error output.
pub fn clone_failure(stderr: &str) -> (r: PluginError)
    ensures
        r matches PluginError::CloneFailed(s) && s@ == trim(stderr@),
{
    PluginError::CloneFailed(trimmed(stderr))
}

fn copy_opt(s: Option<&str>) -> (r: Option<String>)
    ensures
        match s {
            Some(t) => r matches Some(u) && u@ == t@,
            None => r is None,
        },
{
    match s {
        Some(t) => Some(t.to_owned()),
        None => None,
    }
}

/// The record of a plugin added at `now` from `link` (the resolved link:
/// see `remote_url`).
pub fn new_meta(kind: PluginKind, link: &str, now: u64, auto_sync: Option<&str>, timeout: Option<&str>) -> (r: PluginMeta)
    ensures
        r.kind == kind,
        r.link@ == link@,
        r.created_at == now,
        r.updated_at is None,
        opt_string(r.auto_sync) == opt_text(auto_sync),
        opt_string(r.timeout) == opt_text(timeout),
{
    PluginMeta {
        kind,
        link: link.to_owned(),
        created_at: now,
        updated_at: None,
        auto_sync: copy_opt(auto_sync),
        timeout: copy_opt(timeout),
    }
}

/// The text of an optional string.
pub open spec fn opt_string(o: Option<String>) -> Option<Seq<char>> {
    match o {
        Some(s) => Some(s@),
        None => None,
    }
}

/// What updating a remote plugin does.
#[derive(Debug)]
pub enum UpdateAction {
    /// The repository is missing: clone it again from the link.
    Clone(String),
    /// Pull, giving up after this many seconds.
    Pull(u64),
}

/// How long a pull may take: the plugin's timeout where it parses, else
/// thirty seconds. A plugin without a timeout uses `30s`.
pub open spec fn pull_timeout(timeout: Option<Seq<char>>) -> nat {
    let t = match timeout {
        Some(t) => t,
        None => "30s"@,
    };
    match duration_result(t) {
        Ok(secs) => secs,
        Err(_) => 30,
    }
}

/// See `pull_timeout`.
pub fn pull_timeout_secs(timeout: Option<&str>) -> (r: u64)
    ensures
        r == pull_timeout(opt_text(timeout)),
{
    let t = match timeout {
        Some(t) => t,
        None => "30s",
    };
    match parse_duration(t) {
        Ok(secs) => secs,
        Err(_) => 30,
    }
}

/// Decides how to update a plugin from its record: a remote plugin is
/// cloned again where its repository is missing (`repo_exists`), else
/// pulled; a local plugin cannot be updated.
pub fn update_action(meta: &PluginMeta, repo_exists: bool) -> (r: Result<UpdateAction, PluginError>)
    ensures
        meta.kind == PluginKind::Local ==> r matches Err(PluginError::LocalNotUpdatable),
        meta.kind == PluginKind::Remote && !repo_exists ==> (r matches Ok(UpdateAction::Clone(l)) && l@ == meta.link@),
        meta.kind == PluginKind::Remote && repo_exists ==> (r matches Ok(UpdateAction::Pull(secs))
            && secs == pull_timeout(opt_string(meta.timeout))),
{
    match meta.kind {
        PluginKind::Local => Err(PluginError::LocalNotUpdatable),
        PluginKind::Remote => {
            if !repo_exists {
                Ok(UpdateAction::Clone(meta.link.clone()))
            } else {
                let t = match &meta.timeout {
                    Some(t) => Some(t.as_str()),
                    None => None,
                };
                Ok(UpdateAction::Pull(pull_timeout_secs(t)))
            }
        }
    }
}

/// `git pull timed out after {secs}s`.
pub fn pull_timeout_message(secs: u64) -> (m: String)
    ensures
        m@ == "git pull timed out after "@ + decimal(secs as nat) + "s"@,
{
    let mut m = "git pull timed out after ".to_owned();
    let n = decimal_string(secs);
    m.append(n.as_str());
    m.append("s");
    m
}

/// The record after an update at `now`.
pub fn mark_updated(meta: &mut PluginMeta, now: u64)
    ensures
        final(meta).updated_at == Some(now),
        final(meta).kind == old(meta).kind,
        final(meta).link == old(meta).link,
        final(meta).created_at == old(meta).created_at,
        final(meta).auto_sync == old(meta).auto_sync,
        final(meta).timeout == old(meta).timeout,
{
    meta.updated_at = Some(now);
}

/// Checks a request to remove a plugin: the name, then that the plugin
/// exists.
pub fn check_remove(username: &str, exists: bool) -> (r: Result<(), PluginError>)
    ensures
        r is Ok <==> valid_component(username@) && exists,
        !valid_component(username@) ==> (r matches Err(PluginError::Invalid(e)) && e.value@ == username@),
        valid_component(username@) && !exists ==> (r matches Err(PluginError::NotFound(n)) && n@ == username@),
{
    check_name(username)?;
    if !exists {
        return Err(PluginError::NotFound(username.to_owned()));
    }
    Ok(())
}

/// Whether removing `username` also clears the active marker: it does
/// where that plugin is the active one.
pub fn removal_clears_active(active: Option<&str>, username: &str) -> (r: bool)
    ensures
        r == (opt_text(active) == Some(username@)),
{
    match active {
        Some(a) => same_text(a, username),
        None => false,
    }
}

/// The active plugin, from the content of the active-plugin file where it
/// could be read: its trimmed text, where that is not empty.
pub fn get_active(content: Option<&str>) -> (r: Option<String>)
    ensures
        match r {
            Some(v) => name_in_file(opt_text(content)) == Some(v@),
            None => name_in_file(opt_text(content)) is None,
        },
{
    read_name(content)
}

/// Checks a request to make `username` the active plugin: the name, then
/// that the plugin exists. The caller then writes the name to the
/// active-plugin file.
pub fn set_active(username: &str, exists: bool) -> (r: Result<(), PluginError>)
    ensures
        r is Ok <==> valid_component(username@) && exists,
        !valid_component(username@) ==> (r matches Err(PluginError::Invalid(e)) && e.value@ == username@),
        valid_component(username@) && !exists ==> (r matches Err(PluginError::NotFound(n)) && n@ == username@),
{
    check_remove(username, exists)
}

/// An entry of the plugins directory, with what the file system says of it.
#[derive(Debug)]
pub struct PluginEntry {
    pub name: String,
    pub is_dir: bool,
    /// The plugin's record, where `meta.json` could be read and parsed.
    pub meta: Option<PluginMeta>,
    pub has_venv: bool,
    pub has_entry: bool,
}

/// A directory whose name does not start with `.` is a plugin.
pub open spec fn is_plugin_dir(e: PluginEntry) -> bool {
    e.is_dir && !(e.name@.len() > 0 && e.name@[0] == '.')
}

/// How a plugin entry is listed.
pub open spec fn plugin_row(e: PluginEntry, active: Option<Seq<char>>) -> PluginInfo {
    PluginInfo {
        name: e.name,
        username: e.name,
        active: active == Some(e.name@),
        has_venv: e.has_venv,
        has_entry: e.has_entry,
        kind: match e.meta {
            Some(m) => m.kind,
            None => PluginKind::Local,
        },
        meta: e.meta,
    }
}

/// The plugins among `entries`, in directory order.
pub open spec fn plugin_rows(entries: Seq<PluginEntry>, active: Option<Seq<char>>) -> Seq<PluginInfo>
    decreases entries.len(),
{
    if entries.len() == 0 {
        Seq::empty()
    } else {
        let rest = plugin_rows(entries.drop_last(), active);
        if is_plugin_dir(entries.last()) {
            rest.push(plugin_row(entries.last(), active))
        } else {
            rest
        }
    }
}

/// Lists the plugins among the entries of the plugins directory, sorted by
/// name, marking the active one (`active`, see `get_active`).
pub fn list(entries: Vec<PluginEntry>, active: Option<&str>) -> (r: Vec<PluginInfo>)
    ensures
        keys_sorted(r@),
        r@.to_multiset() =~= plugin_rows(entries@, opt_text(active)).to_multiset(),
{
    let ghost act = opt_text(active);
    let ghost all = entries@;
    let mut rows: Vec<PluginInfo> = Vec::new();
    let mut rest = entries;
    let ghost mut done: int = 0;
    assert(rest@ =~= all.skip(0));
    while rest.len() > 0
        invariant
            act == opt_text(active),
            0 <= done <= all.len(),
            rest@ =~= all.skip(done),
            rows@ =~= plugin_rows(all.take(done), act),
        decreases rest@.len(),
    {
        let e = rest.remove(0);
        proof {
            assert(e == all[done]);
            assert(all.take(done + 1).drop_last() =~= all.take(done));
            assert(all.take(done + 1).last() == all[done]);
            assert(all.skip(done + 1) =~= all.skip(done).remove(0));
        }
        let hidden = e.name.as_str().unicode_len() > 0 && e.name.as_str().get_char(0) == '.';
        if e.is_dir && !hidden {
            let is_active = match active {
                Some(a) => same_text(a, e.name.as_str()),
                None => false,
            };
            let kind = match &e.meta {
                Some(m) => m.kind,
                None => PluginKind::Local,
            };
            let ghost row = plugin_row(e, act);
            let info = PluginInfo {
                name: e.name.clone(),
                username: e.name,
                active: is_active,
                has_venv: e.has_venv,
                has_entry: e.has_entry,
                kind,
                meta: e.meta,
            };
            assert(info == row);
            rows.push(info);
        }
        proof {
            done = done + 1;
        }
    }
    assert(all.take(all.len() as int) =~= all);
    sort_by_key(rows)
}

/// The components of a path: the pieces between `/`, without empty ones.
pub open spec fn components(path: Seq<char>) -> Seq<Seq<char>> {
    split_on(path, '/').filter(|c: Seq<char>| c.len() > 0)
}

/// Whether `path` lies inside `root` (or is it), comparing whole
/// components as `Path::starts_with` does.
pub open spec fn path_within(path: Seq<char>, root: Seq<char>) -> bool {
    components(root).len() <= components(path).len()
        && components(path).take(components(root).len() as int) == components(root)
}

fn path_components(path: &str) -> (r: Vec<String>)
    ensures
        strings_view(r@) == components(path@),
{
    let pieces = split_char(path, '/');
    let ghost all = strings_view(pieces@);
    let mut out: Vec<String> = Vec::new();
    let mut i: usize = 0;
    while i < pieces.len()
        invariant
            i <= pieces@.len(),
            all == strings_view(pieces@),
            all == split_on(path@, '/'),
            strings_view(out@) == all.take(i as int).filter(|c: Seq<char>| c.len() > 0),
        decreases pieces@.len() - i,
    {
        proof {
            reveal(Seq::filter);
            assert(all.take(i + 1).drop_last() =~= all.take(i as int));
            assert(all.take(i + 1).last() == all[i as int]);
        }
        if pieces[i].as_str().unicode_len() > 0 {
            let ghost before = strings_view(out@);
            out.push(pieces[i].clone());
            assert(strings_view(out@) =~= before.push(all[i as int]));
        }
        i = i + 1;
    }
    assert(all.take(all.len() as int) =~= all);
    out
}

/// Checks the directory a local plugin is copied from: it must be a
/// directory (`source_is_dir`), and the plugin's directory
/// (`destination_root`, resolved like `source_root`) must not lie inside
/// it, or the copy would copy itself.
pub fn check_local_source(link: &str, source_is_dir: bool, source_root: &str, destination_root: &str) -> (r: Result<(), PluginError>)
    ensures
        !source_is_dir ==> (r matches Err(PluginError::LocalSourceMissing(l)) && l@ == link@),
        source_is_dir && path_within(destination_root@, source_root@) ==> (r matches Err(PluginError::DestinationInsideSource)),
        source_is_dir && !path_within(destination_root@, source_root@) ==> r is Ok,
{
    if !source_is_dir {
        return Err(PluginError::LocalSourceMissing(link.to_owned()));
    }
    let src = path_components(source_root);
    let dst = path_components(destination_root);
    let ghost sv = strings_view(src@);
    let ghost dv = strings_view(dst@);
    if src.len() > dst.len() {
        return Ok(());
    }
    let mut i: usize = 0;
    while i < src.len()
        invariant
            source_is_dir,
            sv == components(source_root@),
            dv == components(destination_root@),
            src@.len() <= dst@.len(),
            i <= src@.len(),
            sv == strings_view(src@),
            dv == strings_view(dst@),
            forall|k: int| 0 <= k < i ==> sv[k] == dv[k],
        decreases src@.len() - i,
    {
        if src[i] != dst[i] {
            assert(dv.take(sv.len() as int)[i as int] != sv[i as int]);
            return Ok(());
        }
        i = i + 1;
    }
    assert(dv.take(sv.len() as int) =~= sv);
    Err(PluginError::DestinationInsideSource)
}

} // verus!
