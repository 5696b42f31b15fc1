//! Merging several profiles' configurations into one.

use vstd::prelude::*;
use vstd::set_lib::*;

use crate::paths::{valid_component, validate_component, InvalidComponent};
use crate::profile::crud::{ProfileKind, ProfileMeta};
use crate::text::{contains_string, decimal, decimal_chars, lemma_decimal_injective, string_of, strings_view};
use crate::yaml::{
    lemma_entry_index_from, lemma_lookup_put_other, lemma_lookup_put_same, dict_put, dict_view, entry_index, field_text, find_entry, group_yaml_view, is_key, lemma_mapping_view,
    lemma_sequence_view, list_view, lookup, put_entry, Yaml, YamlV,
};

verus! {

/// The name `name` takes when it is already used and `source` is the
/// profile it comes from, numbered `n`: `"{name} ({source} {n})"`.
pub open spec fn numbered_name(name: Seq<char>, source: Seq<char>, n: nat) -> Seq<char> {
    name + " ("@ + source + " "@ + decimal(n) + ")"@
}

/// `"{name} ({source})"`.
pub open spec fn sourced_name(name: Seq<char>, source: Seq<char>) -> Seq<char> {
    name + " ("@ + source + ")"@
}

/// The first numbered name, from number `n` on, that `taken` lacks (looked
/// for up to `taken.len() + 2`, where one is sure to be found).
pub open spec fn free_numbered_name(name: Seq<char>, source: Seq<char>, taken: Seq<Seq<char>>, n: nat) -> Seq<char>
    decreases taken.len() + 3 - n,
{
    if n >= taken.len() + 2 || !taken.contains(numbered_name(name, source, n)) {
        numbered_name(name, source, n)
    } else {
        free_numbered_name(name, source, taken, n + 1)
    }
}

/// The name a proxy called `name` from profile `source` gets when the
/// names in `taken` are used: its own, else `"{name} ({source})"`, else
/// `"{name} ({source} {n})"` for the least `n >= 2` that is free.
pub open spec fn unique_name(name: Seq<char>, source: Seq<char>, taken: Seq<Seq<char>>) -> Seq<char> {
    if !taken.contains(name) {
        name
    } else if !taken.contains(sourced_name(name, source)) {
        sourced_name(name, source)
    } else {
        free_numbered_name(name, source, taken, 2)
    }
}

proof fn lemma_numbered_name_injective(name: Seq<char>, source: Seq<char>, a: nat, b: nat)
    requires
        numbered_name(name, source, a) == numbered_name(name, source, b),
    ensures
        a == b,
{
    let p = name + " ("@ + source + " "@;
    let x = numbered_name(name, source, a);
    let y = numbered_name(name, source, b);
    assert(x == p + decimal(a) + ")"@);
    assert(y == p + decimal(b) + ")"@);
    assert(decimal(a).len() == decimal(b).len());
    assert(decimal(a) =~= x.subrange(p.len() as int, (p.len() + decimal(a).len()) as int));
    assert(decimal(b) =~= y.subrange(p.len() as int, (p.len() + decimal(b).len()) as int));
    lemma_decimal_injective(a, b);
}

/// Among the `taken.len() + 1` numbered names for `2..=taken.len() + 2`,
/// at least one is not taken.
proof fn lemma_some_numbered_name_free(name: Seq<char>, source: Seq<char>, taken: Seq<Seq<char>>)
    ensures
        exists|n: nat| 2 <= n <= taken.len() + 2 && !taken.contains(#[trigger] numbered_name(name, source, n)),
{
    if forall|n: nat| 2 <= n <= taken.len() + 2 ==> taken.contains(#[trigger] numbered_name(name, source, n)) {
        let x = set_int_range(2, (taken.len() + 3) as int);
        let f = |i: int| numbered_name(name, source, i as nat);
        lemma_int_range(2, (taken.len() + 3) as int);
        assert forall|i: int, j: int| x.contains(i) && x.contains(j) && #[trigger] f(i) == #[trigger] f(j) implies i == j by {
            lemma_numbered_name_injective(name, source, i as nat, j as nat);
        }
        assert(vstd::relations::injective_on(f, x));
        let y = x.map(f);
        lemma_map_size(x, y, f);
        assert forall|s: Seq<char>| y.contains(s) implies taken.to_set().contains(s) by {
            let i = choose|i: int| x.contains(i) && f(i) == s;
            assert(taken.contains(numbered_name(name, source, i as nat)));
        }
        lemma_len_subset(y, taken.to_set());
        taken.lemma_cardinality_of_set();
        assert(false);
    }
}

proof fn lemma_free_numbered_name(name: Seq<char>, source: Seq<char>, taken: Seq<Seq<char>>, n: nat, m: nat)
    requires
        n <= m <= taken.len() + 2,
        !taken.contains(numbered_name(name, source, m)),
    ensures
        !taken.contains(free_numbered_name(name, source, taken, n)),
    decreases taken.len() + 3 - n,
{
    if n < m && taken.contains(numbered_name(name, source, n)) {
        lemma_free_numbered_name(name, source, taken, n + 1, m);
    }
}

/// The unique name is never one of `taken`.
pub proof fn lemma_unique_name_is_free(name: Seq<char>, source: Seq<char>, taken: Seq<Seq<char>>)
    ensures
        !taken.contains(unique_name(name, source, taken)),
{
    if taken.contains(name) && taken.contains(sourced_name(name, source)) {
        lemma_some_numbered_name_free(name, source, taken);
        let m = choose|n: nat| 2 <= n <= taken.len() + 2 && !taken.contains(#[trigger] numbered_name(name, source, n));
        lemma_free_numbered_name(name, source, taken, 2, m);
    }
}

/// The name a proxy from `source` keeps in the merged profile: see
/// `unique_name`. The result is never one of `taken`.
pub fn unique_proxy_name(name: &str, source: &str, taken: &Vec<String>) -> (r: String)
    ensures
        r@ == unique_name(name@, source@, strings_view(taken@)),
        !strings_view(taken@).contains(r@),
{
    let ghost t = strings_view(taken@);
    proof {
        lemma_unique_name_is_free(name@, source@, t);
    }
    let own = name.to_owned();
    if !contains_string(taken, &own) {
        return own;
    }
    let mut first = name.to_owned();
    first.append(" (");
    first.append(source);
    first.append(")");
    if !contains_string(taken, &first) {
        return first;
    }
    let bound: u128 = taken.len() as u128 + 2;
    let mut n: u128 = 2;
    while n < bound
        invariant
            2 <= n <= bound,
            bound == t.len() + 2,
            t == strings_view(taken@),
            t.contains(name@),
            t.contains(sourced_name(name@, source@)),
            free_numbered_name(name@, source@, t, n as nat) == free_numbered_name(name@, source@, t, 2),
        decreases bound - n,
    {
        let digits = decimal_chars(n);
        let mut candidate = name.to_owned();
        candidate.append(" (");
        candidate.append(source);
        candidate.append(" ");
        let num = string_of(digits.as_slice());
        candidate.append(num.as_str());
        candidate.append(")");
        assert(candidate@ == numbered_name(name@, source@, n as nat));
        if !contains_string(taken, &candidate) {
            return candidate;
        }
        n = n + 1;
    }
    let digits = decimal_chars(n);
    let mut candidate = name.to_owned();
    candidate.append(" (");
    candidate.append(source);
    candidate.append(" ");
    let num = string_of(digits.as_slice());
    candidate.append(num.as_str());
    candidate.append(")");
    candidate
}


/// Counts reported by a merge.
#[derive(Debug, Default, PartialEq, Eq)]
pub struct MergeStats {
    /// Proxies in the merged profile.
    pub proxies: usize,
    /// Proxies left out because an earlier one had the same identity.
    pub dropped: usize,
    /// Proxy groups in the merged profile.
    pub groups: usize,
    /// Rules in the merged profile.
    pub rules: usize,
}

/// Why a set of documents could not be merged; each holds the profile at fault.
#[derive(Debug, PartialEq, Eq)]
pub enum MergeError {
    /// The document is not a mapping.
    InvalidConfig(String),
    /// A proxy is not a mapping.
    InvalidProxy(String),
    /// A proxy has no name.
    ProxyMissingName(String),
    /// A proxy group is not a mapping.
    InvalidGroup(String),
    /// A proxy group has no name.
    GroupMissingName(String),
}

/// What a `MergeError` holds, as character sequences.
pub enum MergeFault {
    InvalidConfig(Seq<char>),
    InvalidProxy(Seq<char>),
    ProxyMissingName(Seq<char>),
    InvalidGroup(Seq<char>),
    GroupMissingName(Seq<char>),
}

impl View for MergeError {
    type V = MergeFault;

    open spec fn view(&self) -> MergeFault {
        match self {
            MergeError::InvalidConfig(s) => MergeFault::InvalidConfig(s@),
            MergeError::InvalidProxy(s) => MergeFault::InvalidProxy(s@),
            MergeError::ProxyMissingName(s) => MergeFault::ProxyMissingName(s@),
            MergeError::InvalidGroup(s) => MergeFault::InvalidGroup(s@),
            MergeError::GroupMissingName(s) => MergeFault::GroupMissingName(s@),
        }
    }
}

pub open spec fn merge_error_message(e: MergeFault) -> Seq<char> {
    match e {
        MergeFault::InvalidConfig(s) => "invalid config in profile "@ + s + ": expected a YAML mapping"@,
        MergeFault::InvalidProxy(s) => "invalid proxy in profile "@ + s + ": expected a YAML mapping"@,
        MergeFault::ProxyMissingName(s) => "invalid proxy in profile "@ + s + ": missing name"@,
        MergeFault::InvalidGroup(s) => "invalid proxy-group in profile "@ + s + ": expected a YAML mapping"@,
        MergeFault::GroupMissingName(s) => "invalid proxy-group in profile "@ + s + ": missing name"@,
    }
}

impl MergeError {
    /// The message that describes the error.
    pub fn message(&self) -> (m: String)
        ensures
            m@ == merge_error_message(self@),
    {
        let mut m = String::new();
        match self {
            MergeError::InvalidConfig(s) => {
                m.append("invalid config in profile ");
                m.append(s.as_str());
                m.append(": expected a YAML mapping");
            }
            MergeError::InvalidProxy(s) => {
                m.append("invalid proxy in profile ");
                m.append(s.as_str());
                m.append(": expected a YAML mapping");
            }
            MergeError::ProxyMissingName(s) => {
                m.append("invalid proxy in profile ");
                m.append(s.as_str());
                m.append(": missing name");
            }
            MergeError::InvalidGroup(s) => {
                m.append("invalid proxy-group in profile ");
                m.append(s.as_str());
                m.append(": expected a YAML mapping");
            }
            MergeError::GroupMissingName(s) => {
                m.append("invalid proxy-group in profile ");
                m.append(s.as_str());
                m.append(": missing name");
            }
        }
        m
    }
}

/// The identity of a proxy: its type, server, port and password texts.
pub type ProxyKeyV = (Seq<char>, Seq<char>, Seq<char>, Seq<char>);

/// A name rewrite: the name a proxy had in its profile, and its name in
/// the merged one.
pub type NameMapV = Seq<(Seq<char>, Seq<char>)>;

/// What a merge has built so far.
pub struct MergeAcc {
    /// Top-level entries other than proxies, proxy groups and rules.
    pub out: Seq<(YamlV, YamlV)>,
    pub proxies: Seq<YamlV>,
    pub groups: Seq<YamlV>,
    pub rules: Seq<YamlV>,
    /// Each kept proxy's identity and merged name.
    pub kept: Seq<(ProxyKeyV, Seq<char>)>,
    /// The merged names in use.
    pub taken: Seq<Seq<char>>,
    pub dropped: nat,
}

pub open spec fn empty_acc() -> MergeAcc {
    MergeAcc {
        out: Seq::empty(),
        proxies: Seq::empty(),
        groups: Seq::empty(),
        rules: Seq::empty(),
        kept: Seq::empty(),
        taken: Seq::empty(),
        dropped: 0,
    }
}

pub open spec fn proxy_key(p: YamlV) -> ProxyKeyV {
    (field_text(p, "type"@), field_text(p, "server"@), field_text(p, "port"@), field_text(p, "password"@))
}

/// The merged name of the first kept proxy with identity `key`, from `from` on.
pub open spec fn kept_lookup(kept: Seq<(ProxyKeyV, Seq<char>)>, key: ProxyKeyV, from: int) -> Option<Seq<char>>
    decreases kept.len() - from,
{
    if from < 0 || from >= kept.len() {
        None
    } else if kept[from].0 == key {
        Some(kept[from].1)
    } else {
        kept_lookup(kept, key, from + 1)
    }
}

/// The latest rewrite of `name` among the first `upto` rewrites.
pub open spec fn name_lookup(nm: NameMapV, name: Seq<char>, upto: int) -> Option<Seq<char>>
    decreases upto,
{
    if upto <= 0 || upto > nm.len() {
        None
    } else if nm[upto - 1].0 == name {
        Some(nm[upto - 1].1)
    } else {
        name_lookup(nm, name, upto - 1)
    }
}

/// `d + 1`, held at `usize::MAX`.
pub open spec fn count_up(d: nat) -> nat {
    if d + 1 > usize::MAX { usize::MAX as nat } else { d + 1 }
}

/// A proxy mapping with its name set to `name`.
pub open spec fn with_name(p: YamlV, name: Seq<char>) -> YamlV {
    match p {
        YamlV::Dict(d) => YamlV::Dict(dict_put(d, "name"@, YamlV::Text(name))),
        _ => p,
    }
}

/// Merges the proxies `ps[i..]` of profile `source`. A proxy whose identity
/// was kept before is dropped and its name rewritten to the kept one's;
/// another is kept under a unique name.
pub open spec fn merge_proxies(acc: MergeAcc, nm: NameMapV, source: Seq<char>, ps: Seq<YamlV>, i: int)
    -> Result<(MergeAcc, NameMapV), MergeFault>
    decreases ps.len() - i,
{
    if i < 0 || i >= ps.len() {
        Ok((acc, nm))
    } else {
        let p = ps[i];
        let orig = field_text(p, "name"@);
        if !(p is Dict) {
            Err(MergeFault::InvalidProxy(source))
        } else if orig.len() == 0 {
            Err(MergeFault::ProxyMissingName(source))
        } else {
            match kept_lookup(acc.kept, proxy_key(p), 0) {
                Some(w) => merge_proxies(
                    MergeAcc { dropped: count_up(acc.dropped), ..acc },
                    nm.push((orig, w)),
                    source,
                    ps,
                    i + 1,
                ),
                None => {
                    let out_name = unique_name(orig, source, acc.taken);
                    merge_proxies(
                        MergeAcc {
                            proxies: acc.proxies.push(with_name(p, out_name)),
                            taken: acc.taken.push(out_name),
                            kept: acc.kept.push((proxy_key(p), out_name)),
                            ..acc
                        },
                        nm.push((orig, out_name)),
                        source,
                        ps,
                        i + 1,
                    )
                }
            }
        }
    }
}

/// A group member after the rewrites `nm`: a name that was rewritten takes
/// its new name.
pub open spec fn rewrite_member(m: YamlV, nm: NameMapV) -> YamlV {
    match m {
        YamlV::Text(n) => match name_lookup(nm, n, nm.len() as int) {
            Some(x) => YamlV::Text(x),
            None => m,
        },
        _ => m,
    }
}

/// A group with its member list rewritten by `nm`.
pub open spec fn rewrite_members(g: YamlV, nm: NameMapV) -> YamlV {
    match g {
        YamlV::Dict(d) => {
            let k = entry_index(d, "proxies"@);
            if k >= 0 && d[k].1 is List {
                YamlV::Dict(d.update(k, (d[k].0, YamlV::List(d[k].1->List_0.map_values(|m: YamlV| rewrite_member(m, nm))))))
            } else {
                g
            }
        }
        _ => g,
    }
}

/// `list` with the items of `items[i..]` that it lacks appended in order.
pub open spec fn append_unique(list: Seq<YamlV>, items: Seq<YamlV>, i: int) -> Seq<YamlV>
    decreases items.len() - i,
{
    if i < 0 || i >= items.len() {
        list
    } else if list.contains(items[i]) {
        append_unique(list, items, i + 1)
    } else {
        append_unique(list.push(items[i]), items, i + 1)
    }
}

/// A group joined with a later group of the same name: the later members
/// it lacks are appended, where both hold member lists.
pub open spec fn merge_members(existing: YamlV, later: YamlV) -> YamlV {
    match existing {
        YamlV::Dict(d) => {
            let k = entry_index(d, "proxies"@);
            match lookup(later, "proxies"@) {
                Some(YamlV::List(lm)) => if k >= 0 && d[k].1 is List {
                    YamlV::Dict(d.update(k, (d[k].0, YamlV::List(append_unique(d[k].1->List_0, lm, 0)))))
                } else {
                    existing
                },
                _ => existing,
            }
        }
        _ => existing,
    }
}

/// Index of the first group named `name`, or `-1`.
pub open spec fn group_index(groups: Seq<YamlV>, name: Seq<char>, from: int) -> int
    decreases groups.len() - from,
{
    if from < 0 || from >= groups.len() {
        -1
    } else if field_text(groups[from], "name"@) == name {
        from
    } else {
        group_index(groups, name, from + 1)
    }
}

/// Merges the proxy groups `gs[i..]` of profile `source`: member names are
/// rewritten by `nm`; a group whose name is already present is joined to
/// it, another is added.
pub open spec fn merge_groups(acc: MergeAcc, nm: NameMapV, source: Seq<char>, gs: Seq<YamlV>, i: int)
    -> Result<MergeAcc, MergeFault>
    decreases gs.len() - i,
{
    if i < 0 || i >= gs.len() {
        Ok(acc)
    } else {
        let g = gs[i];
        let name = field_text(g, "name"@);
        if !(g is Dict) {
            Err(MergeFault::InvalidGroup(source))
        } else if name.len() == 0 {
            Err(MergeFault::GroupMissingName(source))
        } else {
            let g2 = rewrite_members(g, nm);
            let k = group_index(acc.groups, name, 0);
            if k >= 0 {
                merge_groups(
                    MergeAcc { groups: acc.groups.update(k, merge_members(acc.groups[k], g2)), ..acc },
                    nm,
                    source,
                    gs,
                    i + 1,
                )
            } else {
                merge_groups(MergeAcc { groups: acc.groups.push(g2), ..acc }, nm, source, gs, i + 1)
            }
        }
    }
}

/// Whether a top-level key is one of the three merged lists.
pub open spec fn is_list_key(k: YamlV) -> bool {
    k == YamlV::Text("proxies"@) || k == YamlV::Text("proxy-groups"@) || k == YamlV::Text("rules"@)
}

/// Whether `out` has an entry with key `k`.
pub open spec fn has_key(out: Seq<(YamlV, YamlV)>, k: YamlV) -> bool {
    exists|t: int| 0 <= t < out.len() && out[t].0 == k
}

/// The top-level entries `d[i..]` added to `out`: the first document to
/// hold a key gives its value.
pub open spec fn merge_top(out: Seq<(YamlV, YamlV)>, d: Seq<(YamlV, YamlV)>, i: int) -> Seq<(YamlV, YamlV)>
    decreases d.len() - i,
{
    if i < 0 || i >= d.len() {
        out
    } else if is_list_key(d[i].0) || has_key(out, d[i].0) {
        merge_top(out, d, i + 1)
    } else {
        merge_top(out.push(d[i]), d, i + 1)
    }
}

/// Merges one document of profile `source`: its proxies, then its groups,
/// then its rules (each new rule once), then its other top-level entries.
pub open spec fn merge_doc(acc: MergeAcc, source: Seq<char>, doc: YamlV) -> Result<MergeAcc, MergeFault> {
    match doc {
        YamlV::Dict(d) => {
            let r1 = match lookup(doc, "proxies"@) {
                Some(YamlV::List(ps)) => merge_proxies(acc, Seq::empty(), source, ps, 0),
                _ => Ok((acc, Seq::empty())),
            };
            match r1 {
                Err(e) => Err(e),
                Ok((acc1, nm)) => {
                    let r2 = match lookup(doc, "proxy-groups"@) {
                        Some(YamlV::List(gs)) => merge_groups(acc1, nm, source, gs, 0),
                        _ => Ok(acc1),
                    };
                    match r2 {
                        Err(e) => Err(e),
                        Ok(acc2) => {
                            let rules = match lookup(doc, "rules"@) {
                                Some(YamlV::List(rs)) => append_unique(acc2.rules, rs, 0),
                                _ => acc2.rules,
                            };
                            Ok(MergeAcc { rules, out: merge_top(acc2.out, d, 0), ..acc2 })
                        }
                    }
                }
            }
        }
        _ => Err(MergeFault::InvalidConfig(source)),
    }
}

/// Merges the documents `docs[i..]` in order.
pub open spec fn merge_all(acc: MergeAcc, docs: Seq<(Seq<char>, YamlV)>, i: int) -> Result<MergeAcc, MergeFault>
    decreases docs.len() - i,
{
    if i < 0 || i >= docs.len() {
        Ok(acc)
    } else {
        match merge_doc(acc, docs[i].0, docs[i].1) {
            Err(e) => Err(e),
            Ok(a) => merge_all(a, docs, i + 1),
        }
    }
}

/// The merged document built from `acc`: its other top-level entries, then
/// `proxies`, `proxy-groups` and `rules`.
pub open spec fn merged_document(acc: MergeAcc) -> YamlV {
    YamlV::Dict(dict_put(
        dict_put(dict_put(acc.out, "proxies"@, YamlV::List(acc.proxies)), "proxy-groups"@, YamlV::List(acc.groups)),
        "rules"@,
        YamlV::List(acc.rules),
    ))
}


/// The texts of a name rewrite list.
pub open spec fn names_view(v: Seq<(String, String)>) -> NameMapV {
    v.map_values(|e: (String, String)| (e.0@, e.1@))
}

/// A proxy's identity, as held while merging.
struct ProxyKey {
    ty: String,
    server: String,
    port: String,
    password: String,
}

impl View for ProxyKey {
    type V = ProxyKeyV;

    closed spec fn view(&self) -> ProxyKeyV {
        (self.ty@, self.server@, self.port@, self.password@)
    }
}

impl ProxyKey {
    fn of(p: &Yaml) -> (k: ProxyKey)
        ensures
            k@ == proxy_key(p@),
    {
        ProxyKey {
            ty: p.field("type"),
            server: p.field("server"),
            port: p.field("port"),
            password: p.field("password"),
        }
    }

    fn same_key(&self, other: &ProxyKey) -> (r: bool)
        ensures
            r == (self@ == other@),
    {
        self.ty == other.ty && self.server == other.server && self.port == other.port && self.password == other.password
    }
}

/// The state of a merge in progress.
struct Merger {
    out: Vec<(Yaml, Yaml)>,
    proxies: Vec<Yaml>,
    groups: Vec<Yaml>,
    rules: Vec<Yaml>,
    kept: Vec<(ProxyKey, String)>,
    taken: Vec<String>,
    dropped: usize,
}

spec fn kept_view(v: Seq<(ProxyKey, String)>) -> Seq<(ProxyKeyV, Seq<char>)> {
    v.map_values(|e: (ProxyKey, String)| (e.0@, e.1@))
}

impl View for Merger {
    type V = MergeAcc;

    closed spec fn view(&self) -> MergeAcc {
        MergeAcc {
            out: dict_view(self.out@),
            proxies: list_view(self.proxies@),
            groups: list_view(self.groups@),
            rules: list_view(self.rules@),
            kept: kept_view(self.kept@),
            taken: strings_view(self.taken@),
            dropped: self.dropped as nat,
        }
    }
}

proof fn lemma_kept_lookup_found(kept: Seq<(ProxyKeyV, Seq<char>)>, key: ProxyKeyV, from: int, k: int)
    requires
        0 <= from <= k < kept.len(),
        kept[k].0 == key,
        forall|t: int| from <= t < k ==> kept[t].0 != key,
    ensures
        kept_lookup(kept, key, from) == Some(kept[k].1),
    decreases k - from,
{
    if from < k {
        lemma_kept_lookup_found(kept, key, from + 1, k);
    }
}

proof fn lemma_kept_lookup_absent(kept: Seq<(ProxyKeyV, Seq<char>)>, key: ProxyKeyV, from: int)
    requires
        0 <= from,
        forall|t: int| from <= t < kept.len() ==> kept[t].0 != key,
    ensures
        kept_lookup(kept, key, from) is None,
    decreases kept.len() - from,
{
    if from < kept.len() {
        lemma_kept_lookup_absent(kept, key, from + 1);
    }
}

/// The merged name kept for identity `key`.
fn find_kept(kept: &Vec<(ProxyKey, String)>, key: &ProxyKey) -> (r: Option<String>)
    ensures
        match kept_lookup(kept_view(kept@), key@, 0) {
            Some(w) => r is Some && r->Some_0@ == w,
            None => r is None,
        },
{
    let ghost kv = kept_view(kept@);
    let mut i: usize = 0;
    while i < kept.len()
        invariant
            i <= kept@.len(),
            kv == kept_view(kept@),
            forall|t: int| 0 <= t < i ==> kv[t].0 != key@,
        decreases kept@.len() - i,
    {
        if kept[i].0.same_key(key) {
            proof {
                lemma_kept_lookup_found(kv, key@, 0, i as int);
            }
            return Some(kept[i].1.clone());
        }
        i = i + 1;
    }
    proof {
        lemma_kept_lookup_absent(kv, key@, 0);
    }
    None
}

/// The latest rewrite of `name`.
fn find_name(nm: &Vec<(String, String)>, name: &String) -> (r: Option<String>)
    ensures
        match name_lookup(names_view(nm@), name@, nm@.len() as int) {
            Some(w) => r is Some && r->Some_0@ == w,
            None => r is None,
        },
{
    let ghost v = names_view(nm@);
    let mut i: usize = nm.len();
    while i > 0
        invariant
            i <= nm@.len(),
            v == names_view(nm@),
            name_lookup(v, name@, i as int) == name_lookup(v, name@, nm@.len() as int),
        decreases i,
    {
        if nm[i - 1].0 == *name {
            return Some(nm[i - 1].1.clone());
        }
        i = i - 1;
    }
    None
}

/// Whether `list` holds a value the same as `x`.
fn contains_yaml(list: &Vec<Yaml>, x: &Yaml) -> (r: bool)
    ensures
        r == list_view(list@).contains(x@),
{
    let ghost lv = list_view(list@);
    let mut i: usize = 0;
    while i < list.len()
        invariant
            i <= list@.len(),
            lv == list_view(list@),
            forall|t: int| 0 <= t < i ==> lv[t] != x@,
        decreases list@.len() - i,
    {
        if list[i].same_as(x) {
            assert(lv[i as int] == x@);
            return true;
        }
        i = i + 1;
    }
    false
}

/// Appends the items of `items` that `list` lacks (see `append_unique`).
fn append_unique_items(list: &mut Vec<Yaml>, items: &Vec<Yaml>)
    ensures
        list_view(final(list)@) == append_unique(list_view(old(list)@), list_view(items@), 0),
{
    let ghost iv = list_view(items@);
    let mut i: usize = 0;
    while i < items.len()
        invariant
            i <= items@.len(),
            iv == list_view(items@),
            append_unique(list_view(list@), iv, i as int) == append_unique(list_view(old(list)@), iv, 0),
        decreases items@.len() - i,
    {
        if !contains_yaml(list, &items[i]) {
            let ghost before = list_view(list@);
            let c = items[i].deep_clone();
            list.push(c);
            assert(list_view(list@) =~= before.push(iv[i as int]));
        }
        i = i + 1;
    }
}

/// A group with its member names rewritten (see `rewrite_members`).
fn rewrite_group_members(g: Yaml, nm: &Vec<(String, String)>) -> (r: Yaml)
    ensures
        r@ == rewrite_members(g@, names_view(nm@)),
{
    broadcast use group_yaml_view;

    match g {
        Yaml::Mapping(mut entries) => {
            let ghost d = dict_view(entries@);
            match find_entry(&entries, "proxies") {
                Some(k) => {
                    let mut entry = (Yaml::Null, Yaml::Null);
                    entries.set_and_swap(k, &mut entry);
                    let (key, value) = entry;
                    match value {
                        Yaml::Sequence(members) => {
                            let ghost mv = list_view(members@);
                            let mut rewritten: Vec<Yaml> = Vec::new();
                            let mut members = members;
                            let mut i: usize = 0;
                            let ghost orig = members@;
                            while i < members.len()
                                invariant
                                    i <= members@.len(),
                                    members@.len() == orig.len(),
                                    mv == list_view(orig),
                                    forall|t: int| i <= t < members@.len() ==> members@[t] == orig[t],
                                    list_view(rewritten@) == mv.take(i as int).map_values(|m: YamlV| rewrite_member(m, names_view(nm@))),
                                decreases members@.len() - i,
                            {
                                let mut member = Yaml::Null;
                                members.set_and_swap(i, &mut member);
                                let ghost before = list_view(rewritten@);
                                let ghost mview = member@;
                                assert(mview == mv[i as int]);
                                let new_member = match member {
                                    Yaml::String(n) => match find_name(nm, &n) {
                                        Some(x) => Yaml::String(x),
                                        None => Yaml::String(n),
                                    },
                                    other => other,
                                };
                                assert(new_member@ == rewrite_member(mview, names_view(nm@)));
                                rewritten.push(new_member);
                                i = i + 1;
                                assert(mv.take(i as int) =~= mv.take(i - 1).push(mv[i - 1]));
                                assert(list_view(rewritten@) =~= before.push(rewrite_member(mview, names_view(nm@))));
                                assert(list_view(rewritten@) =~= mv.take(i as int).map_values(|m: YamlV| rewrite_member(m, names_view(nm@))));
                            }
                            assert(mv.take(mv.len() as int) =~= mv);
                            let ghost kv = key@;
                            let new_value = Yaml::Sequence(rewritten);
                            entries.set(k, (key, new_value));
                            assert(dict_view(entries@) =~= d.update(k as int, (kv, YamlV::List(mv.map_values(|m: YamlV| rewrite_member(m, names_view(nm@)))))));
                            Yaml::Mapping(entries)
                        }
                        other => {
                            let ghost kv = key@;
                            let ghost ov = other@;
                            entries.set(k, (key, other));
                            assert(dict_view(entries@) =~= d);
                            Yaml::Mapping(entries)
                        }
                    }
                }
                None => Yaml::Mapping(entries),
            }
        }
        other => other,
    }
}

/// A group joined with a later one (see `merge_members`).
fn join_group_members(existing: Yaml, later: &Yaml) -> (r: Yaml)
    ensures
        r@ == merge_members(existing@, later@),
{
    broadcast use group_yaml_view;

    let later_members = match later.get("proxies") {
        Some(Yaml::Sequence(lm)) => lm,
        _ => {
            return existing;
        }
    };
    match existing {
        Yaml::Mapping(mut entries) => {
            let ghost d = dict_view(entries@);
            match find_entry(&entries, "proxies") {
                Some(k) => {
                    let mut entry = (Yaml::Null, Yaml::Null);
                    entries.set_and_swap(k, &mut entry);
                    let (key, value) = entry;
                    let ghost kv = key@;
                    match value {
                        Yaml::Sequence(mut members) => {
                            append_unique_items(&mut members, later_members);
                            let ghost nv = list_view(members@);
                            entries.set(k, (key, Yaml::Sequence(members)));
                            assert(dict_view(entries@) =~= d.update(k as int, (kv, YamlV::List(nv))));
                            Yaml::Mapping(entries)
                        }
                        other => {
                            entries.set(k, (key, other));
                            assert(dict_view(entries@) =~= d);
                            Yaml::Mapping(entries)
                        }
                    }
                }
                None => Yaml::Mapping(entries),
            }
        }
        other => other,
    }
}

proof fn lemma_group_index_found(groups: Seq<YamlV>, name: Seq<char>, from: int, k: int)
    requires
        0 <= from <= k < groups.len(),
        field_text(groups[k], "name"@) == name,
        forall|t: int| from <= t < k ==> field_text(groups[t], "name"@) != name,
    ensures
        group_index(groups, name, from) == k,
    decreases k - from,
{
    if from < k {
        lemma_group_index_found(groups, name, from + 1, k);
    }
}

proof fn lemma_group_index_absent(groups: Seq<YamlV>, name: Seq<char>, from: int)
    requires
        0 <= from,
        forall|t: int| from <= t < groups.len() ==> field_text(groups[t], "name"@) != name,
    ensures
        group_index(groups, name, from) == -1,
    decreases groups.len() - from,
{
    if from < groups.len() {
        lemma_group_index_absent(groups, name, from + 1);
    }
}

/// Position of the group named `name`.
fn find_group(groups: &Vec<Yaml>, name: &String) -> (r: Option<usize>)
    ensures
        r matches Some(k) ==> k < groups@.len() && group_index(list_view(groups@), name@, 0) == k,
        r is None ==> group_index(list_view(groups@), name@, 0) == -1,
{
    let ghost gv = list_view(groups@);
    let mut i: usize = 0;
    while i < groups.len()
        invariant
            i <= groups@.len(),
            gv == list_view(groups@),
            forall|t: int| 0 <= t < i ==> field_text(gv[t], "name"@) != name@,
        decreases groups@.len() - i,
    {
        let f = groups[i].field("name");
        if f == *name {
            proof {
                lemma_group_index_found(gv, name@, 0, i as int);
            }
            return Some(i);
        }
        i = i + 1;
    }
    proof {
        lemma_group_index_absent(gv, name@, 0);
    }
    None
}


/// Whether `out` has an entry whose key is the same as `k`.
fn has_entry_key(out: &Vec<(Yaml, Yaml)>, k: &Yaml) -> (r: bool)
    ensures
        r == has_key(dict_view(out@), k@),
{
    let ghost d = dict_view(out@);
    let mut i: usize = 0;
    while i < out.len()
        invariant
            i <= out@.len(),
            d == dict_view(out@),
            forall|t: int| 0 <= t < i ==> d[t].0 != k@,
        decreases out@.len() - i,
    {
        if out[i].0.same_as(k) {
            assert(d[i as int].0 == k@);
            return true;
        }
        i = i + 1;
    }
    false
}

impl Merger {
    fn new() -> (m: Merger)
        ensures
            m@ == empty_acc(),
    {
        let m = Merger {
            out: Vec::new(),
            proxies: Vec::new(),
            groups: Vec::new(),
            rules: Vec::new(),
            kept: Vec::new(),
            taken: Vec::new(),
            dropped: 0,
        };
        assert(m@.out =~= Seq::<(YamlV, YamlV)>::empty());
        assert(m@.proxies =~= Seq::<YamlV>::empty());
        assert(m@.groups =~= Seq::<YamlV>::empty());
        assert(m@.rules =~= Seq::<YamlV>::empty());
        assert(m@.kept =~= Seq::<(ProxyKeyV, Seq<char>)>::empty());
        assert(m@.taken =~= Seq::<Seq<char>>::empty());
        m
    }

    fn merge_proxies(&mut self, nm: &mut Vec<(String, String)>, source: &str, ps: &Vec<Yaml>) -> (r: Result<(), MergeError>)
        ensures
            match merge_proxies(old(self)@, names_view(old(nm)@), source@, list_view(ps@), 0) {
                Ok((a, n)) => r is Ok && final(self)@ == a && names_view(final(nm)@) == n,
                Err(e) => r is Err && r->Err_0@ == e,
            },
    {
        let ghost psv = list_view(ps@);
        let mut i: usize = 0;
        while i < ps.len()
            invariant
                i <= ps@.len(),
                psv == list_view(ps@),
                merge_proxies(self@, names_view(nm@), source@, psv, i as int)
                    == merge_proxies(old(self)@, names_view(old(nm)@), source@, psv, 0),
            decreases ps@.len() - i,
        {
            let ghost acc = self@;
            let ghost nmv = names_view(nm@);
            let proxy = ps[i].deep_clone();
            let orig = proxy.field("name");
            let entries = match proxy {
                Yaml::Mapping(entries) => entries,
                _ => {
                    return Err(MergeError::InvalidProxy(source.to_owned()));
                }
            };
            proof {
                lemma_mapping_view(entries);
            }
            let p = Yaml::Mapping(entries);
            if orig.as_str().is_empty() {
                assert(orig@.len() == 0);
                return Err(MergeError::ProxyMissingName(source.to_owned()));
            }
            let key = ProxyKey::of(&p);
            match find_kept(&self.kept, &key) {
                Some(winner) => {
                    self.dropped = if self.dropped < usize::MAX { self.dropped + 1 } else { usize::MAX };
                    let ghost wv = winner@;
                    let ghost ov = orig@;
                    nm.push((orig, winner));
                    assert(names_view(nm@) =~= nmv.push((ov, wv)));
                    assert(self@ == MergeAcc { dropped: count_up(acc.dropped), ..acc });
                }
                None => {
                    let out_name = unique_proxy_name(orig.as_str(), source, &self.taken);
                    let ghost ov = orig@;
                    let ghost on = out_name@;
                    let mut entries = match p {
                        Yaml::Mapping(e) => e,
                        _ => Vec::new(),
                    };
                    put_entry(&mut entries, "name", Yaml::String(out_name.clone()));
                    proof {
                        lemma_mapping_view(entries);
                    }
                    let named = Yaml::Mapping(entries);
                    assert(named@ == with_name(psv[i as int], on));
                    self.proxies.push(named);
                    self.taken.push(out_name.clone());
                    let ghost kv = key@;
                    self.kept.push((key, out_name.clone()));
                    nm.push((orig, out_name));
                    assert(names_view(nm@) =~= nmv.push((ov, on)));
                    assert(list_view(self.proxies@) =~= acc.proxies.push(with_name(psv[i as int], on)));
                    assert(strings_view(self.taken@) =~= acc.taken.push(on));
                    assert(kept_view(self.kept@) =~= acc.kept.push((kv, on)));
                }
            }
            i = i + 1;
        }
        Ok(())
    }

    fn merge_groups(&mut self, nm: &Vec<(String, String)>, source: &str, gs: &Vec<Yaml>) -> (r: Result<(), MergeError>)
        ensures
            match merge_groups(old(self)@, names_view(nm@), source@, list_view(gs@), 0) {
                Ok(a) => r is Ok && final(self)@ == a,
                Err(e) => r is Err && r->Err_0@ == e,
            },
    {
        let ghost gsv = list_view(gs@);
        let ghost nmv = names_view(nm@);
        let mut i: usize = 0;
        while i < gs.len()
            invariant
                i <= gs@.len(),
                gsv == list_view(gs@),
                nmv == names_view(nm@),
                merge_groups(self@, nmv, source@, gsv, i as int) == merge_groups(old(self)@, nmv, source@, gsv, 0),
            decreases gs@.len() - i,
        {
            let ghost acc = self@;
            let group = gs[i].deep_clone();
            if !matches!(group, Yaml::Mapping(_)) {
                return Err(MergeError::InvalidGroup(source.to_owned()));
            }
            let name = group.field("name");
            if name.as_str().is_empty() {
                return Err(MergeError::GroupMissingName(source.to_owned()));
            }
            let g2 = rewrite_group_members(group, nm);
            match find_group(&self.groups, &name) {
                Some(k) => {
                    let mut slot = Yaml::Null;
                    self.groups.set_and_swap(k, &mut slot);
                    let joined = join_group_members(slot, &g2);
                    let ghost jv = joined@;
                    self.groups.set(k, joined);
                    assert(list_view(self.groups@) =~= acc.groups.update(k as int, jv));
                }
                None => {
                    let ghost gv = g2@;
                    self.groups.push(g2);
                    assert(list_view(self.groups@) =~= acc.groups.push(gv));
                }
            }
            i = i + 1;
        }
        Ok(())
    }

    fn merge_top(&mut self, d: &Vec<(Yaml, Yaml)>)
        ensures
            final(self)@ == (MergeAcc { out: merge_top(old(self)@.out, dict_view(d@), 0), ..old(self)@ }),
    {
        let ghost dv = dict_view(d@);
        let mut i: usize = 0;
        while i < d.len()
            invariant
                i <= d@.len(),
                dv == dict_view(d@),
                self@ == (MergeAcc { out: self@.out, ..old(self)@ }),
                merge_top(self@.out, dv, i as int) == merge_top(old(self)@.out, dv, 0),
            decreases d@.len() - i,
        {
            let k = &d[i].0;
            if is_key(k, "proxies") || is_key(k, "proxy-groups") || is_key(k, "rules") {
            } else if has_entry_key(&self.out, k) {
            } else {
                let ghost before = dict_view(self.out@);
                let kc = k.deep_clone();
                let vc = d[i].1.deep_clone();
                self.out.push((kc, vc));
                assert(dict_view(self.out@) =~= before.push(dv[i as int]));
            }
            i = i + 1;
        }
    }

    fn merge_doc(&mut self, source: &str, doc: &Yaml) -> (r: Result<(), MergeError>)
        ensures
            match merge_doc(old(self)@, source@, doc@) {
                Ok(a) => r is Ok && final(self)@ == a,
                Err(e) => r is Err && r->Err_0@ == e,
            },
    {
        broadcast use group_yaml_view;

        let entries = match doc {
            Yaml::Mapping(entries) => entries,
            _ => {
                return Err(MergeError::InvalidConfig(source.to_owned()));
            }
        };
        proof {
            lemma_mapping_view(*entries);
        }
        let mut nm: Vec<(String, String)> = Vec::new();
        assert(names_view(nm@) =~= Seq::<(Seq<char>, Seq<char>)>::empty());
        match doc.get("proxies") {
            Some(Yaml::Sequence(ps)) => {
                self.merge_proxies(&mut nm, source, ps)?;
            }
            _ => {}
        }
        match doc.get("proxy-groups") {
            Some(Yaml::Sequence(gs)) => {
                self.merge_groups(&nm, source, gs)?;
            }
            _ => {}
        }
        match doc.get("rules") {
            Some(Yaml::Sequence(rs)) => {
                append_unique_items(&mut self.rules, rs);
            }
            _ => {}
        }
        self.merge_top(entries);
        Ok(())
    }
}

/// Merges the documents of several profiles, given as `(profile, document)`
/// in order, into one document and its counts (see `merge_all`,
/// `merged_document`). Proxies that share type, server, port and password
/// collapse into the first; a name already used gets the profile's name
/// added; group members follow the renames and groups of one name are
/// joined; each rule is kept once; for other top-level keys the first
/// profile to hold one gives its value.
pub fn merge_documents(docs: &Vec<(String, Yaml)>) -> (r: Result<(Yaml, MergeStats), MergeError>)
    ensures
        match merge_all(empty_acc(), docs_view(docs@), 0) {
            Ok(a) => r is Ok && r->Ok_0.0@ == merged_document(a) && r->Ok_0.1 == (MergeStats {
                proxies: a.proxies.len() as usize,
                dropped: a.dropped as usize,
                groups: a.groups.len() as usize,
                rules: a.rules.len() as usize,
            }),
            Err(e) => r is Err && r->Err_0@ == e,
        },
{
    broadcast use group_yaml_view;

    let ghost dv = docs_view(docs@);
    let mut m = Merger::new();
    let mut i: usize = 0;
    while i < docs.len()
        invariant
            i <= docs@.len(),
            dv == docs_view(docs@),
            merge_all(m@, dv, i as int) == merge_all(empty_acc(), dv, 0),
        decreases docs@.len() - i,
    {
        m.merge_doc(docs[i].0.as_str(), &docs[i].1)?;
        i = i + 1;
    }
    assert(merge_all(m@, dv, i as int) == Ok::<MergeAcc, MergeFault>(m@));
    assert(list_view(m.proxies@).len() == m.proxies@.len());
    assert(list_view(m.groups@).len() == m.groups@.len());
    assert(list_view(m.rules@).len() == m.rules@.len());
    let stats = MergeStats {
        proxies: m.proxies.len(),
        dropped: m.dropped,
        groups: m.groups.len(),
        rules: m.rules.len(),
    };
    let ghost acc = m@;
    let Merger { mut out, proxies, groups, rules, kept: _, taken: _, dropped: _ } = m;
    put_entry(&mut out, "proxies", Yaml::Sequence(proxies));
    put_entry(&mut out, "proxy-groups", Yaml::Sequence(groups));
    put_entry(&mut out, "rules", Yaml::Sequence(rules));
    proof {
        lemma_mapping_view(out);
    }
    Ok((Yaml::Mapping(out), stats))
}

/// The views of `(profile, document)` pairs.
pub open spec fn docs_view(docs: Seq<(String, Yaml)>) -> Seq<(Seq<char>, YamlV)> {
    docs.map_values(|d: (String, Yaml)| (d.0@, d.1@))
}


/// What every merge state reached from the empty one satisfies.
pub open spec fn merge_acc_wf(acc: MergeAcc) -> bool {
    &&& acc.proxies.len() == acc.taken.len()
    &&& acc.proxies.len() == acc.kept.len()
    &&& forall|k: int| 0 <= k < acc.proxies.len() ==> field_text(#[trigger] acc.proxies[k], "name"@) == acc.taken[k]
    &&& forall|k: int| 0 <= k < acc.proxies.len() ==> proxy_key(#[trigger] acc.proxies[k]) == acc.kept[k].0
    &&& acc.taken.no_duplicates()
    &&& forall|i: int, j: int| 0 <= i < j < acc.kept.len() ==> #[trigger] acc.kept[i].0 != #[trigger] acc.kept[j].0
    &&& acc.rules.no_duplicates()
}

/// Number of proxies listed by the documents `docs[i..]`.
pub open spec fn proxies_in(docs: Seq<(Seq<char>, YamlV)>, i: int) -> nat
    decreases docs.len() - i,
{
    if i < 0 || i >= docs.len() {
        0
    } else {
        let here: nat = match lookup(docs[i].1, "proxies"@) {
            Some(YamlV::List(ps)) => ps.len(),
            _ => 0,
        };
        here + proxies_in(docs, i + 1)
    }
}

proof fn lemma_kept_lookup_none(kept: Seq<(ProxyKeyV, Seq<char>)>, key: ProxyKeyV, from: int)
    requires
        0 <= from,
        kept_lookup(kept, key, from) is None,
    ensures
        forall|t: int| from <= t < kept.len() ==> kept[t].0 != key,
    decreases kept.len() - from,
{
    if from < kept.len() {
        lemma_kept_lookup_none(kept, key, from + 1);
    }
}

proof fn lemma_with_name(p: YamlV, n: Seq<char>)
    requires
        p is Dict,
    ensures
        field_text(with_name(p, n), "name"@) == n,
        proxy_key(with_name(p, n)) == proxy_key(p),
{
    let d = p->Dict_0;
    lemma_lookup_put_same(d, "name"@, YamlV::Text(n));
    reveal_strlit("name");
    reveal_strlit("type");
    reveal_strlit("server");
    reveal_strlit("port");
    reveal_strlit("password");
    assert("type"@[0] != "name"@[0]);
    assert("type"@ != "name"@);
    assert("server"@.len() != "name"@.len());
    assert("server"@ != "name"@);
    assert("port"@ != "name"@);
    assert("password"@ != "name"@);
    lemma_lookup_put_other(d, "name"@, YamlV::Text(n), "type"@);
    lemma_lookup_put_other(d, "name"@, YamlV::Text(n), "server"@);
    lemma_lookup_put_other(d, "name"@, YamlV::Text(n), "port"@);
    lemma_lookup_put_other(d, "name"@, YamlV::Text(n), "password"@);
}

proof fn lemma_append_unique_no_dup(list: Seq<YamlV>, items: Seq<YamlV>, i: int)
    requires
        list.no_duplicates(),
    ensures
        append_unique(list, items, i).no_duplicates(),
    decreases items.len() - i,
{
    if 0 <= i < items.len() {
        if !list.contains(items[i]) {
            assert(list.push(items[i]).no_duplicates()) by {
                assert forall|a: int, b: int| 0 <= a < list.len() + 1 && 0 <= b < list.len() + 1 && a != b
                    implies list.push(items[i])[a] != list.push(items[i])[b] by {
                    if a == list.len() {
                        assert(list.push(items[i])[b] == list[b]);
                    } else if b == list.len() {
                        assert(list.push(items[i])[a] == list[a]);
                    }
                }
            }
            lemma_append_unique_no_dup(list.push(items[i]), items, i + 1);
        } else {
            lemma_append_unique_no_dup(list, items, i + 1);
        }
    }
}

proof fn lemma_merge_proxies_wf(acc: MergeAcc, nm: NameMapV, source: Seq<char>, ps: Seq<YamlV>, i: int)
    requires
        0 <= i <= ps.len(),
        merge_acc_wf(acc),
        merge_proxies(acc, nm, source, ps, i) is Ok,
    ensures
        merge_acc_wf(merge_proxies(acc, nm, source, ps, i)->Ok_0.0),
        merge_proxies(acc, nm, source, ps, i)->Ok_0.0.rules == acc.rules,
        acc.proxies.len() + acc.dropped + (ps.len() - i) <= usize::MAX ==>
            merge_proxies(acc, nm, source, ps, i)->Ok_0.0.proxies.len()
                + merge_proxies(acc, nm, source, ps, i)->Ok_0.0.dropped
                == acc.proxies.len() + acc.dropped + (ps.len() - i),
    decreases ps.len() - i,
{
    if i < ps.len() {
        let p = ps[i];
        let orig = field_text(p, "name"@);
        match kept_lookup(acc.kept, proxy_key(p), 0) {
            Some(w) => {
                lemma_merge_proxies_wf(
                    MergeAcc { dropped: count_up(acc.dropped), ..acc },
                    nm.push((orig, w)),
                    source,
                    ps,
                    i + 1,
                );
            }
            None => {
                let out_name = unique_name(orig, source, acc.taken);
                lemma_unique_name_is_free(orig, source, acc.taken);
                lemma_kept_lookup_none(acc.kept, proxy_key(p), 0);
                lemma_with_name(p, out_name);
                let a2 = MergeAcc {
                    proxies: acc.proxies.push(with_name(p, out_name)),
                    taken: acc.taken.push(out_name),
                    kept: acc.kept.push((proxy_key(p), out_name)),
                    ..acc
                };
                assert(merge_acc_wf(a2)) by {
                    assert forall|k: int| 0 <= k < a2.proxies.len() implies field_text(#[trigger] a2.proxies[k], "name"@) == a2.taken[k] by {
                        if k < acc.proxies.len() {
                            assert(a2.proxies[k] == acc.proxies[k]);
                        }
                    }
                    assert forall|k: int| 0 <= k < a2.proxies.len() implies proxy_key(#[trigger] a2.proxies[k]) == a2.kept[k].0 by {
                        if k < acc.proxies.len() {
                            assert(a2.proxies[k] == acc.proxies[k]);
                        }
                    }
                    assert forall|x: int, y: int| 0 <= x < a2.taken.len() && 0 <= y < a2.taken.len() && x != y
                        implies a2.taken[x] != a2.taken[y] by {
                        if x == acc.taken.len() {
                            assert(acc.taken.contains(a2.taken[y]));
                        } else if y == acc.taken.len() {
                            assert(acc.taken.contains(a2.taken[x]));
                        }
                    }
                    assert forall|x: int, y: int| 0 <= x < y < a2.kept.len() implies #[trigger] a2.kept[x].0 != #[trigger] a2.kept[y].0 by {
                        if y == acc.kept.len() {
                            assert(a2.kept[x] == acc.kept[x]);
                        } else {
                            assert(a2.kept[x] == acc.kept[x]);
                            assert(a2.kept[y] == acc.kept[y]);
                        }
                    }
                }
                lemma_merge_proxies_wf(a2, nm.push((orig, out_name)), source, ps, i + 1);
            }
        }
    }
}

proof fn lemma_merge_groups_keeps(acc: MergeAcc, nm: NameMapV, source: Seq<char>, gs: Seq<YamlV>, i: int)
    requires
        0 <= i <= gs.len(),
        merge_groups(acc, nm, source, gs, i) is Ok,
    ensures
        merge_groups(acc, nm, source, gs, i)->Ok_0 == (MergeAcc { groups: merge_groups(acc, nm, source, gs, i)->Ok_0.groups, ..acc }),
    decreases gs.len() - i,
{
    if i < gs.len() {
        let g = gs[i];
        let name = field_text(g, "name"@);
        let g2 = rewrite_members(g, nm);
        let k = group_index(acc.groups, name, 0);
        if k >= 0 {
            lemma_merge_groups_keeps(
                MergeAcc { groups: acc.groups.update(k, merge_members(acc.groups[k], g2)), ..acc },
                nm,
                source,
                gs,
                i + 1,
            );
        } else {
            lemma_merge_groups_keeps(MergeAcc { groups: acc.groups.push(g2), ..acc }, nm, source, gs, i + 1);
        }
    }
}

proof fn lemma_merge_doc_wf(acc: MergeAcc, source: Seq<char>, doc: YamlV)
    requires
        merge_acc_wf(acc),
        merge_doc(acc, source, doc) is Ok,
    ensures
        merge_acc_wf(merge_doc(acc, source, doc)->Ok_0),
        acc.proxies.len() + acc.dropped + (match lookup(doc, "proxies"@) {
            Some(YamlV::List(ps)) => ps.len(),
            _ => 0,
        }) <= usize::MAX ==>
            merge_doc(acc, source, doc)->Ok_0.proxies.len() + merge_doc(acc, source, doc)->Ok_0.dropped
                == acc.proxies.len() + acc.dropped + (match lookup(doc, "proxies"@) {
                    Some(YamlV::List(ps)) => ps.len(),
                    _ => 0,
                }),
{
    let r1 = match lookup(doc, "proxies"@) {
        Some(YamlV::List(ps)) => merge_proxies(acc, Seq::empty(), source, ps, 0),
        _ => Ok((acc, Seq::empty())),
    };
    match lookup(doc, "proxies"@) {
        Some(YamlV::List(ps)) => {
            lemma_merge_proxies_wf(acc, Seq::empty(), source, ps, 0);
        }
        _ => {}
    }
    let (acc1, nm) = r1->Ok_0;
    match lookup(doc, "proxy-groups"@) {
        Some(YamlV::List(gs)) => {
            lemma_merge_groups_keeps(acc1, nm, source, gs, 0);
        }
        _ => {}
    }
    let acc2 = match lookup(doc, "proxy-groups"@) {
        Some(YamlV::List(gs)) => merge_groups(acc1, nm, source, gs, 0)->Ok_0,
        _ => acc1,
    };
    match lookup(doc, "rules"@) {
        Some(YamlV::List(rs)) => {
            lemma_append_unique_no_dup(acc2.rules, rs, 0);
        }
        _ => {}
    }
}

proof fn lemma_merge_all_wf(acc: MergeAcc, docs: Seq<(Seq<char>, YamlV)>, i: int)
    requires
        0 <= i <= docs.len(),
        merge_acc_wf(acc),
        merge_all(acc, docs, i) is Ok,
    ensures
        merge_acc_wf(merge_all(acc, docs, i)->Ok_0),
        acc.proxies.len() + acc.dropped + proxies_in(docs, i) <= usize::MAX ==>
            merge_all(acc, docs, i)->Ok_0.proxies.len() + merge_all(acc, docs, i)->Ok_0.dropped
                == acc.proxies.len() + acc.dropped + proxies_in(docs, i),
    decreases docs.len() - i,
{
    if i < docs.len() {
        lemma_merge_doc_wf(acc, docs[i].0, docs[i].1);
        let a = merge_doc(acc, docs[i].0, docs[i].1)->Ok_0;
        lemma_merge_all_wf(a, docs, i + 1);
    }
}

/// In a merged profile no two proxies share a name, no two share an
/// identity (type, server, port and password), and no rule appears twice.
/// Every listed proxy is either kept or counted as dropped, as long as
/// the counts fit in a `usize`.
pub proof fn lemma_merge_unique(docs: Seq<(Seq<char>, YamlV)>)
    requires
        merge_all(empty_acc(), docs, 0) is Ok,
    ensures
        ({
            let a = merge_all(empty_acc(), docs, 0)->Ok_0;
            &&& forall|i: int, j: int| 0 <= i < j < a.proxies.len() ==>
                field_text(#[trigger] a.proxies[i], "name"@) != field_text(#[trigger] a.proxies[j], "name"@)
            &&& forall|i: int, j: int| 0 <= i < j < a.proxies.len() ==>
                proxy_key(#[trigger] a.proxies[i]) != proxy_key(#[trigger] a.proxies[j])
            &&& a.rules.no_duplicates()
            &&& proxies_in(docs, 0) <= usize::MAX ==> a.proxies.len() + a.dropped == proxies_in(docs, 0)
        }),
{
    let e = empty_acc();
    assert(merge_acc_wf(e));
    lemma_merge_all_wf(e, docs, 0);
    let a = merge_all(e, docs, 0)->Ok_0;
    assert forall|i: int, j: int| 0 <= i < j < a.proxies.len() implies
        field_text(#[trigger] a.proxies[i], "name"@) != field_text(#[trigger] a.proxies[j], "name"@) by {
        assert(a.taken[i] != a.taken[j]);
    }
    assert forall|i: int, j: int| 0 <= i < j < a.proxies.len() implies
        proxy_key(#[trigger] a.proxies[i]) != proxy_key(#[trigger] a.proxies[j]) by {
        assert(a.kept[i].0 != a.kept[j].0);
    }
}

/// The value of the first entry of `d[i..]` whose key is `k`.
pub open spec fn key_value(d: Seq<(YamlV, YamlV)>, k: YamlV, i: int) -> Option<YamlV>
    decreases d.len() - i,
{
    if i < 0 || i >= d.len() {
        None
    } else if d[i].0 == k {
        Some(d[i].1)
    } else {
        key_value(d, k, i + 1)
    }
}

/// `a` where it holds a value, else `b`.
pub open spec fn or_else(a: Option<YamlV>, b: Option<YamlV>) -> Option<YamlV> {
    match a {
        Some(v) => Some(v),
        None => b,
    }
}

/// The value of key `k` in the first of the documents `docs[i..]` that
/// holds it.
pub open spec fn first_doc_value(docs: Seq<(Seq<char>, YamlV)>, k: YamlV, i: int) -> Option<YamlV>
    decreases docs.len() - i,
{
    if i < 0 || i >= docs.len() {
        None
    } else {
        match docs[i].1 {
            YamlV::Dict(d) => or_else(key_value(d, k, 0), first_doc_value(docs, k, i + 1)),
            _ => first_doc_value(docs, k, i + 1),
        }
    }
}

proof fn lemma_key_value_found(d: Seq<(YamlV, YamlV)>, k: YamlV, i: int)
    requires
        0 <= i,
    ensures
        key_value(d, k, i) is Some <==> exists|t: int| i <= t < d.len() && d[t].0 == k,
    decreases d.len() - i,
{
    if i < d.len() {
        lemma_key_value_found(d, k, i + 1);
        if d[i].0 != k {
            assert((exists|t: int| i <= t < d.len() && d[t].0 == k) ==> (exists|t: int| i + 1 <= t < d.len() && d[t].0 == k));
        }
    }
}

proof fn lemma_key_value_push(d: Seq<(YamlV, YamlV)>, e: (YamlV, YamlV), k: YamlV, i: int)
    requires
        0 <= i <= d.len(),
    ensures
        key_value(d.push(e), k, i) == or_else(key_value(d, k, i), if e.0 == k { Some(e.1) } else { None }),
    decreases d.len() - i,
{
    if i < d.len() {
        assert(d.push(e)[i] == d[i]);
        lemma_key_value_push(d, e, k, i + 1);
    } else {
        assert(d.push(e)[i] == e);
        assert(key_value(d.push(e), k, i + 1) == None::<YamlV>);
    }
}

proof fn lemma_key_value_update(d: Seq<(YamlV, YamlV)>, j: int, e: (YamlV, YamlV), k: YamlV, i: int)
    requires
        0 <= j < d.len(),
        0 <= i,
        e.0 == d[j].0,
        d[j].0 != k,
    ensures
        key_value(d.update(j, e), k, i) == key_value(d, k, i),
    decreases d.len() - i,
{
    if i < d.len() {
        lemma_key_value_update(d, j, e, k, i + 1);
    }
}

proof fn lemma_key_value_put(d: Seq<(YamlV, YamlV)>, name: Seq<char>, v: YamlV, k: YamlV)
    requires
        k != YamlV::Text(name),
    ensures
        key_value(dict_put(d, name, v), k, 0) == key_value(d, k, 0),
{
    lemma_entry_index_from(d, name, 0);
    let j = entry_index(d, name);
    if j >= 0 {
        lemma_key_value_update(d, j, (d[j].0, v), k, 0);
    } else {
        lemma_key_value_push(d, (YamlV::Text(name), v), k, 0);
    }
}

proof fn lemma_merge_top_value(out: Seq<(YamlV, YamlV)>, d: Seq<(YamlV, YamlV)>, i: int, k: YamlV)
    requires
        0 <= i,
        !is_list_key(k),
    ensures
        key_value(merge_top(out, d, i), k, 0) == or_else(key_value(out, k, 0), key_value(d, k, i)),
    decreases d.len() - i,
{
    if i < d.len() {
        if is_list_key(d[i].0) || has_key(out, d[i].0) {
            lemma_merge_top_value(out, d, i + 1, k);
            if d[i].0 == k {
                lemma_key_value_found(out, k, 0);
            }
        } else {
            lemma_merge_top_value(out.push(d[i]), d, i + 1, k);
            lemma_key_value_push(out, d[i], k, 0);
        }
    }
}

proof fn lemma_merge_doc_out(acc: MergeAcc, source: Seq<char>, doc: YamlV)
    requires
        merge_doc(acc, source, doc) is Ok,
    ensures
        doc is Dict && merge_doc(acc, source, doc)->Ok_0.out == merge_top(acc.out, doc->Dict_0, 0),
{
    let r1 = match lookup(doc, "proxies"@) {
        Some(YamlV::List(ps)) => merge_proxies(acc, Seq::empty(), source, ps, 0),
        _ => Ok((acc, Seq::empty())),
    };
    assert(r1 is Ok);
    let (acc1, nm) = r1->Ok_0;
    let r2 = match lookup(doc, "proxy-groups"@) {
        Some(YamlV::List(gs)) => merge_groups(acc1, nm, source, gs, 0),
        _ => Ok(acc1),
    };
    assert(acc1.out == acc.out) by {
        if let Some(YamlV::List(ps)) = lookup(doc, "proxies"@) {
            lemma_merge_proxies_out(acc, Seq::empty(), source, ps, 0);
        }
    }
    assert(r2 is Ok);
    assert(r2->Ok_0.out == acc1.out) by {
        if let Some(YamlV::List(gs)) = lookup(doc, "proxy-groups"@) {
            lemma_merge_groups_keeps(acc1, nm, source, gs, 0);
        }
    }
}

proof fn lemma_merge_proxies_out(acc: MergeAcc, nm: NameMapV, source: Seq<char>, ps: Seq<YamlV>, i: int)
    requires
        0 <= i,
        merge_proxies(acc, nm, source, ps, i) is Ok,
    ensures
        merge_proxies(acc, nm, source, ps, i)->Ok_0.0.out == acc.out,
    decreases ps.len() - i,
{
    if i < ps.len() {
        let p = ps[i];
        let orig = field_text(p, "name"@);
        match kept_lookup(acc.kept, proxy_key(p), 0) {
            Some(w) => {
                lemma_merge_proxies_out(
                    MergeAcc { dropped: count_up(acc.dropped), ..acc },
                    nm.push((orig, w)),
                    source,
                    ps,
                    i + 1,
                );
            }
            None => {
                let out_name = unique_name(orig, source, acc.taken);
                let a2 = MergeAcc {
                    proxies: acc.proxies.push(with_name(p, out_name)),
                    taken: acc.taken.push(out_name),
                    kept: acc.kept.push((proxy_key(p), out_name)),
                    ..acc
                };
                lemma_merge_proxies_out(a2, nm.push((orig, out_name)), source, ps, i + 1);
            }
        }
    }
}

proof fn lemma_merge_all_value(acc: MergeAcc, docs: Seq<(Seq<char>, YamlV)>, i: int, k: YamlV)
    requires
        0 <= i,
        !is_list_key(k),
        merge_all(acc, docs, i) is Ok,
    ensures
        key_value(merge_all(acc, docs, i)->Ok_0.out, k, 0) == or_else(key_value(acc.out, k, 0), first_doc_value(docs, k, i)),
    decreases docs.len() - i,
{
    if i < docs.len() {
        assert(merge_doc(acc, docs[i].0, docs[i].1) is Ok);
        let a = merge_doc(acc, docs[i].0, docs[i].1)->Ok_0;
        match docs[i].1 {
            YamlV::Dict(d) => {
                lemma_merge_doc_out(acc, docs[i].0, docs[i].1);
                lemma_merge_top_value(acc.out, d, 0, k);
                lemma_merge_all_value(a, docs, i + 1, k);
            }
            _ => {}
        }
    }
}

/// Every top-level key of a merged profile other than `proxies`,
/// `proxy-groups` and `rules` holds the value it has in the first document
/// that holds it, and the merged profile holds no such key that none of
/// the documents holds.
pub proof fn lemma_merge_other_keys(docs: Seq<(Seq<char>, YamlV)>, k: YamlV)
    requires
        merge_all(empty_acc(), docs, 0) is Ok,
        !is_list_key(k),
    ensures
        key_value(merged_document(merge_all(empty_acc(), docs, 0)->Ok_0)->Dict_0, k, 0) == first_doc_value(docs, k, 0),
{
    let a = merge_all(empty_acc(), docs, 0)->Ok_0;
    lemma_merge_all_value(empty_acc(), docs, 0, k);
    assert(key_value(empty_acc().out, k, 0) == None::<YamlV>);
    let d1 = dict_put(a.out, "proxies"@, YamlV::List(a.proxies));
    let d2 = dict_put(d1, "proxy-groups"@, YamlV::List(a.groups));
    lemma_key_value_put(a.out, "proxies"@, YamlV::List(a.proxies), k);
    lemma_key_value_put(d1, "proxy-groups"@, YamlV::List(a.groups), k);
    lemma_key_value_put(d2, "rules"@, YamlV::List(a.rules), k);
}

/// The members a group lists under `proxies`; none where it lists none.
pub open spec fn group_members(g: YamlV) -> Seq<YamlV> {
    match lookup(g, "proxies"@) {
        Some(YamlV::List(ms)) => ms,
        _ => Seq::empty(),
    }
}

/// Whether a group holds a member list under `proxies`.
pub open spec fn lists_members(g: YamlV) -> bool {
    lookup(g, "proxies"@) matches Some(YamlV::List(_))
}

/// The items a document lists under `key`; none where it lists none.
pub open spec fn doc_items(doc: YamlV, key: Seq<char>) -> Seq<YamlV> {
    match lookup(doc, key) {
        Some(YamlV::List(xs)) => xs,
        _ => Seq::empty(),
    }
}

/// Some proxy of `proxies` is named `name` and has the identity `key`.
pub open spec fn holds_proxy(proxies: Seq<YamlV>, name: Seq<char>, key: ProxyKeyV) -> bool {
    exists|q: int| #![trigger proxies[q]] 0 <= q < proxies.len() && field_text(proxies[q], "name"@) == name
        && proxy_key(proxies[q]) == key
}

/// Some group of `groups` named `name` lists `member`.
pub open spec fn group_lists(groups: Seq<YamlV>, name: Seq<char>, member: YamlV) -> bool {
    exists|g: int| #![trigger groups[g]] 0 <= g < groups.len() && field_text(groups[g], "name"@) == name
        && group_members(groups[g]).contains(member)
}

/// In the merged `groups` and `proxies`, the member `m` of a group named
/// `gname` of a profile whose proxies are `ps` has become the merged name
/// of a proxy of that profile named `m`: the group lists a name under
/// which the merged proxies hold a proxy of that identity.
pub open spec fn follows_rename(groups: Seq<YamlV>, proxies: Seq<YamlV>, gname: Seq<char>, ps: Seq<YamlV>, m: Seq<char>) -> bool {
    exists|j: int, t: Seq<char>| #![trigger ps[j], group_lists(groups, gname, YamlV::Text(t))]
        0 <= j < ps.len() && field_text(ps[j], "name"@) == m && group_lists(groups, gname, YamlV::Text(t))
        && holds_proxy(proxies, t, proxy_key(ps[j]))
}

spec fn kept_matches(acc: MergeAcc) -> bool {
    &&& acc.kept.len() == acc.proxies.len()
    &&& forall|k: int| 0 <= k < acc.kept.len() ==> field_text(#[trigger] acc.proxies[k], "name"@) == acc.kept[k].1
        && proxy_key(acc.proxies[k]) == acc.kept[k].0
}

spec fn proxies_grow(old: Seq<YamlV>, new: Seq<YamlV>) -> bool {
    &&& old.len() <= new.len()
    &&& forall|q: int| 0 <= q < old.len() ==> #[trigger] new[q] == old[q]
}

spec fn groups_grow(old: Seq<YamlV>, new: Seq<YamlV>) -> bool {
    &&& old.len() <= new.len()
    &&& forall|g: int| 0 <= g < old.len() ==> field_text(#[trigger] new[g], "name"@) == field_text(old[g], "name"@)
    &&& forall|g: int, x: YamlV| 0 <= g < old.len() && #[trigger] group_members(old[g]).contains(x) ==> group_members(new[g]).contains(x)
}

spec fn all_list_members(groups: Seq<YamlV>) -> bool {
    forall|g: int| 0 <= g < groups.len() ==> lists_members(#[trigger] groups[g])
}

spec fn resolves(nm: NameMapV, proxies: Seq<YamlV>, ps: Seq<YamlV>, j: int) -> bool {
    match name_lookup(nm, field_text(ps[j], "name"@), nm.len() as int) {
        Some(t) => exists|j2: int| #![trigger ps[j2]] 0 <= j2 < ps.len() && field_text(ps[j2], "name"@) == field_text(ps[j], "name"@)
            && holds_proxy(proxies, t, proxy_key(ps[j2])),
        None => false,
    }
}

proof fn lemma_name_lookup_prefix(nm: NameMapV, e: (Seq<char>, Seq<char>), m: Seq<char>, upto: int)
    requires
        0 <= upto <= nm.len(),
    ensures
        name_lookup(nm.push(e), m, upto) == name_lookup(nm, m, upto),
    decreases upto,
{
    if upto > 0 {
        assert(nm.push(e)[upto - 1] == nm[upto - 1]);
        lemma_name_lookup_prefix(nm, e, m, upto - 1);
    }
}

proof fn lemma_name_lookup_push(nm: NameMapV, e: (Seq<char>, Seq<char>), m: Seq<char>)
    ensures
        name_lookup(nm.push(e), m, nm.push(e).len() as int) == (if e.0 == m { Some(e.1) } else { name_lookup(nm, m, nm.len() as int) }),
{
    assert(nm.push(e)[nm.len() as int] == e);
    lemma_name_lookup_prefix(nm, e, m, nm.len() as int);
}

proof fn lemma_kept_lookup_some(kept: Seq<(ProxyKeyV, Seq<char>)>, key: ProxyKeyV, from: int) -> (k: int)
    requires
        0 <= from,
        kept_lookup(kept, key, from) is Some,
    ensures
        from <= k < kept.len(),
        kept[k].0 == key,
        kept[k].1 == kept_lookup(kept, key, from)->Some_0,
    decreases kept.len() - from,
{
    if kept[from].0 == key {
        from
    } else {
        lemma_kept_lookup_some(kept, key, from + 1)
    }
}

proof fn lemma_holds_proxy_grows(old: Seq<YamlV>, new: Seq<YamlV>, name: Seq<char>, key: ProxyKeyV)
    requires
        holds_proxy(old, name, key),
        proxies_grow(old, new),
    ensures
        holds_proxy(new, name, key),
{
    let q = choose|q: int| #![trigger old[q]] 0 <= q < old.len() && field_text(old[q], "name"@) == name && proxy_key(old[q]) == key;
    assert(new[q] == old[q]);
}

proof fn lemma_group_lists_grows(old: Seq<YamlV>, new: Seq<YamlV>, name: Seq<char>, x: YamlV)
    requires
        group_lists(old, name, x),
        groups_grow(old, new),
    ensures
        group_lists(new, name, x),
{
    let g = choose|g: int| #![trigger old[g]] 0 <= g < old.len() && field_text(old[g], "name"@) == name
        && group_members(old[g]).contains(x);
    assert(field_text(new[g], "name"@) == field_text(old[g], "name"@));
    assert(group_members(new[g]).contains(x));
}

proof fn lemma_follows_rename_grows(
    groups: Seq<YamlV>,
    proxies: Seq<YamlV>,
    groups2: Seq<YamlV>,
    proxies2: Seq<YamlV>,
    gname: Seq<char>,
    ps: Seq<YamlV>,
    m: Seq<char>,
)
    requires
        follows_rename(groups, proxies, gname, ps, m),
        groups_grow(groups, groups2),
        proxies_grow(proxies, proxies2),
    ensures
        follows_rename(groups2, proxies2, gname, ps, m),
{
    let (j, t) = choose|j: int, t: Seq<char>| #![trigger ps[j], group_lists(groups, gname, YamlV::Text(t))]
        0 <= j < ps.len() && field_text(ps[j], "name"@) == m && group_lists(groups, gname, YamlV::Text(t))
        && holds_proxy(proxies, t, proxy_key(ps[j]));
    lemma_group_lists_grows(groups, groups2, gname, YamlV::Text(t));
    lemma_holds_proxy_grows(proxies, proxies2, t, proxy_key(ps[j]));
    assert(group_lists(groups2, gname, YamlV::Text(t)));
}

proof fn lemma_grow_trans(a: Seq<YamlV>, b: Seq<YamlV>, c: Seq<YamlV>)
    ensures
        proxies_grow(a, b) && proxies_grow(b, c) ==> proxies_grow(a, c),
        groups_grow(a, b) && groups_grow(b, c) ==> groups_grow(a, c),
{
    if groups_grow(a, b) && groups_grow(b, c) {
        assert forall|g: int, x: YamlV| 0 <= g < a.len() && #[trigger] group_members(a[g]).contains(x) implies group_members(c[g]).contains(x) by {
            assert(group_members(b[g]).contains(x));
        }
        assert forall|g: int| 0 <= g < a.len() implies field_text(#[trigger] c[g], "name"@) == field_text(a[g], "name"@) by {
            assert(field_text(c[g], "name"@) == field_text(b[g], "name"@));
        }
    }
    if proxies_grow(a, b) && proxies_grow(b, c) {
        assert forall|q: int| 0 <= q < a.len() implies #[trigger] c[q] == a[q] by {
            assert(c[q] == b[q]);
        }
    }
}

proof fn lemma_grow_refl(a: Seq<YamlV>)
    ensures
        proxies_grow(a, a),
        groups_grow(a, a),
{
}

proof fn lemma_merge_proxies_resolve(acc: MergeAcc, nm: NameMapV, source: Seq<char>, ps: Seq<YamlV>, i: int)
    requires
        0 <= i <= ps.len(),
        kept_matches(acc),
        merge_proxies(acc, nm, source, ps, i) is Ok,
        forall|j: int| 0 <= j < i ==> #[trigger] resolves(nm, acc.proxies, ps, j),
    ensures
        kept_matches(merge_proxies(acc, nm, source, ps, i)->Ok_0.0),
        proxies_grow(acc.proxies, merge_proxies(acc, nm, source, ps, i)->Ok_0.0.proxies),
        merge_proxies(acc, nm, source, ps, i)->Ok_0.0.groups == acc.groups,
        forall|j: int| 0 <= j < ps.len() ==> #[trigger] resolves(
            merge_proxies(acc, nm, source, ps, i)->Ok_0.1,
            merge_proxies(acc, nm, source, ps, i)->Ok_0.0.proxies,
            ps,
            j,
        ),
    decreases ps.len() - i,
{
    if i < ps.len() {
        let p = ps[i];
        let orig = field_text(p, "name"@);
        let (acc_next, x) = match kept_lookup(acc.kept, proxy_key(p), 0) {
            Some(w) => (MergeAcc { dropped: count_up(acc.dropped), ..acc }, w),
            None => {
                let out_name = unique_name(orig, source, acc.taken);
                (
                    MergeAcc {
                        proxies: acc.proxies.push(with_name(p, out_name)),
                        taken: acc.taken.push(out_name),
                        kept: acc.kept.push((proxy_key(p), out_name)),
                        ..acc
                    },
                    out_name,
                )
            }
        };
        let nm_next = nm.push((orig, x));
        assert(merge_proxies(acc, nm, source, ps, i) == merge_proxies(acc_next, nm_next, source, ps, i + 1));
        assert(proxies_grow(acc.proxies, acc_next.proxies));
        assert(holds_proxy(acc_next.proxies, x, proxy_key(p))) by {
            match kept_lookup(acc.kept, proxy_key(p), 0) {
                Some(w) => {
                    let k = lemma_kept_lookup_some(acc.kept, proxy_key(p), 0);
                    assert(acc_next.proxies[k] == acc.proxies[k]);
                }
                None => {
                    lemma_with_name(p, x);
                    assert(acc_next.proxies[acc.proxies.len() as int] == with_name(p, x));
                }
            }
        }
        assert(kept_matches(acc_next)) by {
            if kept_lookup(acc.kept, proxy_key(p), 0) is None {
                lemma_with_name(p, x);
                assert forall|k: int| 0 <= k < acc_next.kept.len() implies field_text(#[trigger] acc_next.proxies[k], "name"@)
                    == acc_next.kept[k].1 && proxy_key(acc_next.proxies[k]) == acc_next.kept[k].0 by {
                    if k < acc.kept.len() {
                        assert(acc_next.proxies[k] == acc.proxies[k]);
                        assert(acc_next.kept[k] == acc.kept[k]);
                    }
                }
            }
        }
        assert forall|j: int| 0 <= j < i + 1 implies #[trigger] resolves(nm_next, acc_next.proxies, ps, j) by {
            let mj = field_text(ps[j], "name"@);
            lemma_name_lookup_push(nm, (orig, x), mj);
            if mj == orig {
                assert(name_lookup(nm_next, mj, nm_next.len() as int) == Some(x));
                assert(ps[i] == p);
            } else {
                assert(j < i);
                assert(resolves(nm, acc.proxies, ps, j));
                let t = name_lookup(nm, mj, nm.len() as int)->Some_0;
                let j2 = choose|j2: int| #![trigger ps[j2]] 0 <= j2 < ps.len() && field_text(ps[j2], "name"@) == mj
                    && holds_proxy(acc.proxies, t, proxy_key(ps[j2]));
                lemma_holds_proxy_grows(acc.proxies, acc_next.proxies, t, proxy_key(ps[j2]));
            }
        }
        lemma_merge_proxies_resolve(acc_next, nm_next, source, ps, i + 1);
        lemma_grow_trans(acc.proxies, acc_next.proxies, merge_proxies(acc, nm, source, ps, i)->Ok_0.0.proxies);
    } else {
        lemma_grow_refl(acc.proxies);
    }
}

proof fn lemma_proxies_not_name()
    ensures
        "proxies"@ != "name"@,
{
    reveal_strlit("proxies");
    reveal_strlit("name");
    assert("proxies"@.len() != "name"@.len());
}

proof fn lemma_rewrite_members_lists(g: YamlV, nm: NameMapV)
    requires
        lists_members(g),
    ensures
        lists_members(rewrite_members(g, nm)),
        field_text(rewrite_members(g, nm), "name"@) == field_text(g, "name"@),
        group_members(rewrite_members(g, nm)) == group_members(g).map_values(|m: YamlV| rewrite_member(m, nm)),
{
    let d = g->Dict_0;
    let k = entry_index(d, "proxies"@);
    let v = YamlV::List(d[k].1->List_0.map_values(|m: YamlV| rewrite_member(m, nm)));
    assert(rewrite_members(g, nm) == YamlV::Dict(dict_put(d, "proxies"@, v)));
    lemma_lookup_put_same(d, "proxies"@, v);
    lemma_proxies_not_name();
    lemma_lookup_put_other(d, "proxies"@, v, "name"@);
}

proof fn lemma_append_unique_contains(list: Seq<YamlV>, items: Seq<YamlV>, i: int)
    requires
        0 <= i,
    ensures
        forall|x: YamlV| list.contains(x) ==> #[trigger] append_unique(list, items, i).contains(x),
        forall|j: int| i <= j < items.len() ==> append_unique(list, items, i).contains(#[trigger] items[j]),
    decreases items.len() - i,
{
    if i < items.len() {
        let r = append_unique(list, items, i);
        if list.contains(items[i]) {
            lemma_append_unique_contains(list, items, i + 1);
            assert(r == append_unique(list, items, i + 1));
            assert forall|x: YamlV| list.contains(x) implies #[trigger] r.contains(x) by {
                assert(append_unique(list, items, i + 1).contains(x));
            }
            assert forall|j: int| i <= j < items.len() implies r.contains(#[trigger] items[j]) by {
                if j == i {
                    assert(append_unique(list, items, i + 1).contains(items[i]));
                } else {
                    assert(append_unique(list, items, i + 1).contains(items[j]));
                }
            }
        } else {
            let l2 = list.push(items[i]);
            lemma_append_unique_contains(l2, items, i + 1);
            assert(r == append_unique(l2, items, i + 1));
            assert(l2[list.len() as int] == items[i]);
            assert(l2.contains(items[i]));
            assert forall|x: YamlV| list.contains(x) implies #[trigger] r.contains(x) by {
                let t = choose|t: int| 0 <= t < list.len() && list[t] == x;
                assert(l2[t] == x);
                assert(l2.contains(x));
                assert(append_unique(l2, items, i + 1).contains(x));
            }
            assert forall|j: int| i <= j < items.len() implies r.contains(#[trigger] items[j]) by {
                if j == i {
                    assert(append_unique(l2, items, i + 1).contains(items[i]));
                } else {
                    assert(append_unique(l2, items, i + 1).contains(items[j]));
                }
            }
        }
    }
}

proof fn lemma_merge_members_lists(existing: YamlV, later: YamlV)
    requires
        lists_members(existing),
        lists_members(later),
    ensures
        lists_members(merge_members(existing, later)),
        field_text(merge_members(existing, later), "name"@) == field_text(existing, "name"@),
        forall|x: YamlV| group_members(existing).contains(x) ==> #[trigger] group_members(merge_members(existing, later)).contains(x),
        forall|x: YamlV| group_members(later).contains(x) ==> #[trigger] group_members(merge_members(existing, later)).contains(x),
{
    let d = existing->Dict_0;
    let k = entry_index(d, "proxies"@);
    let lm = group_members(later);
    let joined = append_unique(d[k].1->List_0, lm, 0);
    assert(merge_members(existing, later) == YamlV::Dict(dict_put(d, "proxies"@, YamlV::List(joined))));
    lemma_lookup_put_same(d, "proxies"@, YamlV::List(joined));
    lemma_proxies_not_name();
    lemma_lookup_put_other(d, "proxies"@, YamlV::List(joined), "name"@);
    lemma_append_unique_contains(d[k].1->List_0, lm, 0);
    assert forall|x: YamlV| lm.contains(x) implies #[trigger] joined.contains(x) by {
        let t = choose|t: int| 0 <= t < lm.len() && lm[t] == x;
        assert(joined.contains(lm[t]));
    }
}

proof fn lemma_group_index_is(groups: Seq<YamlV>, name: Seq<char>, from: int)
    requires
        0 <= from,
        group_index(groups, name, from) >= 0,
    ensures
        from <= group_index(groups, name, from) < groups.len(),
        field_text(groups[group_index(groups, name, from)], "name"@) == name,
    decreases groups.len() - from,
{
    if field_text(groups[from], "name"@) != name {
        lemma_group_index_is(groups, name, from + 1);
    }
}

proof fn lemma_merge_groups_lists(acc: MergeAcc, nm: NameMapV, source: Seq<char>, gs: Seq<YamlV>, i: int)
    requires
        0 <= i <= gs.len(),
        merge_groups(acc, nm, source, gs, i) is Ok,
        all_list_members(acc.groups),
        forall|gi: int| 0 <= gi < gs.len() ==> lists_members(#[trigger] gs[gi]),
    ensures
        all_list_members(merge_groups(acc, nm, source, gs, i)->Ok_0.groups),
        groups_grow(acc.groups, merge_groups(acc, nm, source, gs, i)->Ok_0.groups),
        forall|gi: int, x: YamlV| i <= gi < gs.len() && #[trigger] group_members(rewrite_members(gs[gi], nm)).contains(x)
            ==> group_lists(merge_groups(acc, nm, source, gs, i)->Ok_0.groups, field_text(gs[gi], "name"@), x),
    decreases gs.len() - i,
{
    let res = merge_groups(acc, nm, source, gs, i)->Ok_0.groups;
    if i < gs.len() {
        let g = gs[i];
        let name = field_text(g, "name"@);
        let g2 = rewrite_members(g, nm);
        lemma_rewrite_members_lists(g, nm);
        let k = group_index(acc.groups, name, 0);
        let groups_next = if k >= 0 {
            acc.groups.update(k, merge_members(acc.groups[k], g2))
        } else {
            acc.groups.push(g2)
        };
        let acc_next = MergeAcc { groups: groups_next, ..acc };
        assert(merge_groups(acc, nm, source, gs, i) == merge_groups(acc_next, nm, source, gs, i + 1));
        if k >= 0 {
            lemma_group_index_is(acc.groups, name, 0);
            lemma_merge_members_lists(acc.groups[k], g2);
            assert(groups_grow(acc.groups, groups_next));
            assert(all_list_members(groups_next));
            assert forall|x: YamlV| #[trigger] group_members(g2).contains(x) implies group_lists(groups_next, name, x) by {
                assert(groups_next[k] == merge_members(acc.groups[k], g2));
            }
        } else {
            assert(groups_next[acc.groups.len() as int] == g2);
            assert(groups_grow(acc.groups, groups_next)) by {
                assert forall|q: int| 0 <= q < acc.groups.len() implies #[trigger] groups_next[q] == acc.groups[q] by {}
            }
            assert(all_list_members(groups_next));
            assert forall|x: YamlV| #[trigger] group_members(g2).contains(x) implies group_lists(groups_next, name, x) by {
                assert(groups_next[acc.groups.len() as int] == g2);
            }
        }
        lemma_merge_groups_lists(acc_next, nm, source, gs, i + 1);
        lemma_grow_trans(acc.groups, groups_next, res);
        assert forall|gi: int, x: YamlV| i <= gi < gs.len() && #[trigger] group_members(rewrite_members(gs[gi], nm)).contains(x)
            implies group_lists(res, field_text(gs[gi], "name"@), x) by {
            if gi == i {
                lemma_group_lists_grows(groups_next, res, name, x);
            }
        }
    } else {
        lemma_grow_refl(acc.groups);
    }
}

/// Member `mi` of group `gi` of document `d` is the name of proxy `j` of
/// that document.
pub open spec fn member_names_proxy(docs: Seq<(Seq<char>, YamlV)>, d: int, gi: int, mi: int, j: int) -> bool {
    let gs = doc_items(docs[d].1, "proxy-groups"@);
    let ps = doc_items(docs[d].1, "proxies"@);
    &&& 0 <= d < docs.len()
    &&& 0 <= gi < gs.len()
    &&& 0 <= mi < group_members(gs[gi]).len()
    &&& 0 <= j < ps.len()
    &&& group_members(gs[gi])[mi] == YamlV::Text(field_text(ps[j], "name"@))
}

/// Every group of every document holds a member list.
pub open spec fn groups_list_members(docs: Seq<(Seq<char>, YamlV)>) -> bool {
    forall|d: int, gi: int| 0 <= d < docs.len() && 0 <= gi < doc_items(docs[d].1, "proxy-groups"@).len()
        ==> lists_members(#[trigger] doc_items(docs[d].1, "proxy-groups"@)[gi])
}

proof fn lemma_merge_doc_renames(acc: MergeAcc, source: Seq<char>, doc: YamlV)
    requires
        merge_doc(acc, source, doc) is Ok,
        kept_matches(acc),
        all_list_members(acc.groups),
        forall|gi: int| 0 <= gi < doc_items(doc, "proxy-groups"@).len() ==> lists_members(#[trigger] doc_items(doc, "proxy-groups"@)[gi]),
    ensures
        kept_matches(merge_doc(acc, source, doc)->Ok_0),
        all_list_members(merge_doc(acc, source, doc)->Ok_0.groups),
        proxies_grow(acc.proxies, merge_doc(acc, source, doc)->Ok_0.proxies),
        groups_grow(acc.groups, merge_doc(acc, source, doc)->Ok_0.groups),
        forall|gi: int, mi: int, j: int|
            #![trigger group_members(doc_items(doc, "proxy-groups"@)[gi])[mi], doc_items(doc, "proxies"@)[j]]
            0 <= gi < doc_items(doc, "proxy-groups"@).len()
            && 0 <= mi < group_members(doc_items(doc, "proxy-groups"@)[gi]).len()
            && 0 <= j < doc_items(doc, "proxies"@).len()
            && group_members(doc_items(doc, "proxy-groups"@)[gi])[mi] == YamlV::Text(field_text(doc_items(doc, "proxies"@)[j], "name"@))
            ==> follows_rename(
                merge_doc(acc, source, doc)->Ok_0.groups,
                merge_doc(acc, source, doc)->Ok_0.proxies,
                field_text(doc_items(doc, "proxy-groups"@)[gi], "name"@),
                doc_items(doc, "proxies"@),
                field_text(doc_items(doc, "proxies"@)[j], "name"@),
            ),
{
    let ps = doc_items(doc, "proxies"@);
    let gs = doc_items(doc, "proxy-groups"@);
    let empty_nm: NameMapV = Seq::empty();
    let r1 = match lookup(doc, "proxies"@) {
        Some(YamlV::List(xs)) => merge_proxies(acc, empty_nm, source, xs, 0),
        _ => Ok((acc, empty_nm)),
    };
    assert(r1 is Ok);
    let (acc1, nm) = r1->Ok_0;
    if let Some(YamlV::List(xs)) = lookup(doc, "proxies"@) {
        lemma_merge_proxies_resolve(acc, empty_nm, source, xs, 0);
    } else {
        lemma_grow_refl(acc.proxies);
    }
    let r2 = match lookup(doc, "proxy-groups"@) {
        Some(YamlV::List(ys)) => merge_groups(acc1, nm, source, ys, 0),
        _ => Ok(acc1),
    };
    assert(r2 is Ok);
    let acc2 = r2->Ok_0;
    if let Some(YamlV::List(ys)) = lookup(doc, "proxy-groups"@) {
        lemma_merge_groups_lists(acc1, nm, source, ys, 0);
        lemma_merge_groups_keeps(acc1, nm, source, ys, 0);
    } else {
        lemma_grow_refl(acc1.groups);
    }
    let a2 = merge_doc(acc, source, doc)->Ok_0;
    assert(a2.groups == acc2.groups && a2.proxies == acc2.proxies && a2.kept == acc2.kept);
    assert(acc2.proxies == acc1.proxies && acc2.kept == acc1.kept);
    assert forall|gi: int, mi: int, j: int|
        #![trigger group_members(gs[gi])[mi], ps[j]]
        0 <= gi < gs.len() && 0 <= mi < group_members(gs[gi]).len() && 0 <= j < ps.len()
        && group_members(gs[gi])[mi] == YamlV::Text(field_text(ps[j], "name"@))
        implies follows_rename(a2.groups, a2.proxies, field_text(gs[gi], "name"@), ps, field_text(ps[j], "name"@)) by {
        let m = field_text(ps[j], "name"@);
        assert(resolves(nm, acc1.proxies, ps, j));
        let t = name_lookup(nm, m, nm.len() as int)->Some_0;
        let j2 = choose|j2: int| #![trigger ps[j2]] 0 <= j2 < ps.len() && field_text(ps[j2], "name"@) == m
            && holds_proxy(acc1.proxies, t, proxy_key(ps[j2]));
        lemma_rewrite_members_lists(gs[gi], nm);
        let rm = group_members(rewrite_members(gs[gi], nm));
        assert(rm[mi] == rewrite_member(YamlV::Text(m), nm));
        assert(rm[mi] == YamlV::Text(t));
        assert(rm.contains(YamlV::Text(t)));
        assert(group_lists(acc2.groups, field_text(gs[gi], "name"@), YamlV::Text(t)));
        assert(ps[j2] == ps[j2]);
    }
}

proof fn lemma_merge_all_renames(acc: MergeAcc, docs: Seq<(Seq<char>, YamlV)>, i: int)
    requires
        0 <= i <= docs.len(),
        merge_all(acc, docs, i) is Ok,
        kept_matches(acc),
        all_list_members(acc.groups),
        groups_list_members(docs),
    ensures
        proxies_grow(acc.proxies, merge_all(acc, docs, i)->Ok_0.proxies),
        groups_grow(acc.groups, merge_all(acc, docs, i)->Ok_0.groups),
        forall|d: int, gi: int, mi: int, j: int| i <= d && #[trigger] member_names_proxy(docs, d, gi, mi, j)
            ==> follows_rename(
                merge_all(acc, docs, i)->Ok_0.groups,
                merge_all(acc, docs, i)->Ok_0.proxies,
                field_text(doc_items(docs[d].1, "proxy-groups"@)[gi], "name"@),
                doc_items(docs[d].1, "proxies"@),
                field_text(doc_items(docs[d].1, "proxies"@)[j], "name"@),
            ),
    decreases docs.len() - i,
{
    let res = merge_all(acc, docs, i)->Ok_0;
    if i < docs.len() {
        let doc = docs[i].1;
        let a1 = merge_doc(acc, docs[i].0, doc)->Ok_0;
        assert forall|gi: int| 0 <= gi < doc_items(doc, "proxy-groups"@).len() implies lists_members(#[trigger] doc_items(doc, "proxy-groups"@)[gi]) by {
            assert(lists_members(doc_items(docs[i].1, "proxy-groups"@)[gi]));
        }
        lemma_merge_doc_renames(acc, docs[i].0, doc);
        lemma_merge_all_renames(a1, docs, i + 1);
        lemma_grow_trans(acc.proxies, a1.proxies, res.proxies);
        lemma_grow_trans(acc.groups, a1.groups, res.groups);
        assert forall|d: int, gi: int, mi: int, j: int| i <= d && #[trigger] member_names_proxy(docs, d, gi, mi, j)
            implies follows_rename(res.groups, res.proxies, field_text(doc_items(docs[d].1, "proxy-groups"@)[gi], "name"@),
                doc_items(docs[d].1, "proxies"@), field_text(doc_items(docs[d].1, "proxies"@)[j], "name"@)) by {
            if d == i {
                let gs = doc_items(doc, "proxy-groups"@);
                let ps = doc_items(doc, "proxies"@);
                assert(group_members(gs[gi])[mi] == YamlV::Text(field_text(ps[j], "name"@)));
                lemma_follows_rename_grows(a1.groups, a1.proxies, res.groups, res.proxies, field_text(gs[gi], "name"@), ps,
                    field_text(ps[j], "name"@));
            }
        }
    } else {
        lemma_grow_refl(acc.proxies);
        lemma_grow_refl(acc.groups);
    }
}

/// In a merged profile every group member that named a proxy of its own
/// profile names that proxy's merged version: for member `mi` of group `gi`
/// of document `d` that is the name of proxy `j` of the same document, the
/// merged group of that name lists a name under which the merged proxies
/// hold a proxy of that document with that name and its identity (the name
/// it was kept under, or that of the earlier proxy it collapsed into). The
/// merged document lists the merged proxies and groups. This holds where
/// every group lists its members under `proxies`.
pub proof fn lemma_merge_follows_renames(docs: Seq<(Seq<char>, YamlV)>)
    requires
        merge_all(empty_acc(), docs, 0) is Ok,
        groups_list_members(docs),
    ensures
        ({
            let a = merge_all(empty_acc(), docs, 0)->Ok_0;
            &&& lookup(merged_document(a), "proxies"@) == Some(YamlV::List(a.proxies))
            &&& lookup(merged_document(a), "proxy-groups"@) == Some(YamlV::List(a.groups))
            &&& forall|d: int, gi: int, mi: int, j: int| #[trigger] member_names_proxy(docs, d, gi, mi, j) ==> follows_rename(
                a.groups,
                a.proxies,
                field_text(doc_items(docs[d].1, "proxy-groups"@)[gi], "name"@),
                doc_items(docs[d].1, "proxies"@),
                field_text(doc_items(docs[d].1, "proxies"@)[j], "name"@),
            )
        }),
{
    let e = empty_acc();
    assert(kept_matches(e));
    assert(all_list_members(e.groups));
    lemma_merge_all_renames(e, docs, 0);
    let a = merge_all(e, docs, 0)->Ok_0;
    reveal_strlit("proxies");
    reveal_strlit("proxy-groups");
    reveal_strlit("rules");
    assert("proxies"@.len() != "proxy-groups"@.len());
    assert("proxies"@.len() != "rules"@.len());
    assert("proxy-groups"@.len() != "rules"@.len());
    let d1 = dict_put(a.out, "proxies"@, YamlV::List(a.proxies));
    let d2 = dict_put(d1, "proxy-groups"@, YamlV::List(a.groups));
    lemma_lookup_put_same(a.out, "proxies"@, YamlV::List(a.proxies));
    lemma_lookup_put_other(d1, "proxy-groups"@, YamlV::List(a.groups), "proxies"@);
    lemma_lookup_put_same(d1, "proxy-groups"@, YamlV::List(a.groups));
    lemma_lookup_put_other(d2, "rules"@, YamlV::List(a.rules), "proxies"@);
    lemma_lookup_put_other(d2, "rules"@, YamlV::List(a.rules), "proxy-groups"@);
}

/// A finished merge: the merged profile's name and what it kept.
#[derive(Debug)]
pub struct MergeResult {
    pub name: String,
    pub stats: MergeStats,
}

/// Why a merge request was refused.
#[derive(Debug)]
pub enum MergeRequestError {
    /// Fewer than two sources.
    TooFew,
    /// `duplicate source: {name}`.
    Duplicate(String),
    /// The output name is no plain path component.
    Invalid(InvalidComponent),
    /// `cannot merge into one of its sources: {name}`.
    IntoSource(String),
    /// `profile {name} already exists and is not a merge output`.
    NotMergeOutput(String),
    /// The existing output's record could not be read; holds what was
    /// reported.
    Meta(String),
}

impl MergeRequestError {
    pub fn message(&self) -> (m: String)
        ensures
            match self {
                MergeRequestError::TooFew => m@ == "merge needs at least two profiles"@,
                MergeRequestError::Duplicate(n) => m@ == "duplicate source: "@ + n@,
                MergeRequestError::Invalid(e) => m@ == "invalid "@ + e.label@ + ": "@ + e.value@,
                MergeRequestError::IntoSource(n) => m@ == "cannot merge into one of its sources: "@ + n@,
                MergeRequestError::NotMergeOutput(n) => m@ == "profile "@ + n@
                    + " already exists and is not a merge output"@,
                MergeRequestError::Meta(e) => m@ == e@,
            },
    {
        match self {
            MergeRequestError::TooFew => "merge needs at least two profiles".to_owned(),
            MergeRequestError::Duplicate(n) => {
                let mut m = "duplicate source: ".to_owned();
                m.append(n.as_str());
                m
            }
            MergeRequestError::Invalid(e) => e.message(),
            MergeRequestError::IntoSource(n) => {
                let mut m = "cannot merge into one of its sources: ".to_owned();
                m.append(n.as_str());
                m
            }
            MergeRequestError::NotMergeOutput(n) => {
                let mut m = "profile ".to_owned();
                m.append(n.as_str());
                m.append(" already exists and is not a merge output");
                m
            }
            MergeRequestError::Meta(e) => e.clone(),
        }
    }
}

/// The position of the first source that repeats an earlier one, looking
/// from position `from` on.
pub open spec fn first_repeat(s: Seq<Seq<char>>, from: int) -> Option<int>
    decreases s.len() - from,
{
    if from < 0 || from >= s.len() {
        None
    } else if s.take(from).contains(s[from]) {
        Some(from)
    } else {
        first_repeat(s, from + 1)
    }
}

/// The texts joined with `sep` between them.
pub open spec fn joined(s: Seq<Seq<char>>, sep: Seq<char>) -> Seq<char>
    decreases s.len(),
{
    if s.len() == 0 {
        Seq::empty()
    } else if s.len() == 1 {
        s[0]
    } else {
        joined(s.drop_last(), sep) + sep + s.last()
    }
}

/// The merged profile's name: the one asked for, else the sources joined
/// with `+`.
pub open spec fn merge_output_name(sources: Seq<Seq<char>>, out: Option<Seq<char>>) -> Seq<char> {
    match out {
        Some(o) => o,
        None => joined(sources, "+"@),
    }
}

fn join_plus(sources: &Vec<String>) -> (r: String)
    ensures
        r@ == joined(strings_view(sources@), "+"@),
{
    let ghost sv = strings_view(sources@);
    let mut r = String::new();
    let mut i: usize = 0;
    while i < sources.len()
        invariant
            i <= sources@.len(),
            sv == strings_view(sources@),
            r@ == joined(sv.take(i as int), "+"@),
        decreases sources@.len() - i,
    {
        proof {
            assert(sv.take(i + 1).drop_last() =~= sv.take(i as int));
            assert(sv.take(i + 1).last() == sv[i as int]);
        }
        if i > 0 {
            r.append("+");
        } else {
            assert(r@ =~= Seq::<char>::empty());
        }
        r.append(sources[i].as_str());
        i = i + 1;
    }
    assert(sv.take(sources@.len() as int) =~= sv);
    r
}

/// Whether `sources[i]` repeats one of `sources[..i]`.
fn repeats_earlier(sources: &Vec<String>, i: usize) -> (r: bool)
    requires
        i < sources@.len(),
    ensures
        r == strings_view(sources@).take(i as int).contains(sources@[i as int]@),
{
    let ghost sv = strings_view(sources@);
    let mut j: usize = 0;
    while j < i
        invariant
            i < sources@.len(),
            j <= i,
            sv == strings_view(sources@),
            forall|k: int| 0 <= k < j ==> sv[k] != sources@[i as int]@,
        decreases i - j,
    {
        if sources[j] == sources[i] {
            assert(sv.take(i as int)[j as int] == sources@[i as int]@);
            return true;
        }
        j = j + 1;
    }
    proof {
        if sv.take(i as int).contains(sources@[i as int]@) {
            let k = choose|k: int| 0 <= k < i && sv.take(i as int)[k] == sources@[i as int]@;
            assert(sv[k] == sources@[i as int]@);
        }
    }
    false
}

/// Checks a request to merge `sources` into `out` (or into their names
/// joined with `+`): at least two sources, none named twice, an output
/// name that is a plain path component and none of the sources. Gives the
/// output name.
pub fn check_merge_request(sources: &Vec<String>, out: Option<&str>) -> (r: Result<String, MergeRequestError>)
    ensures
        sources@.len() < 2 ==> (r matches Err(MergeRequestError::TooFew)),
        sources@.len() >= 2 ==> match first_repeat(strings_view(sources@), 0) {
            Some(i) => r matches Err(MergeRequestError::Duplicate(n)) && n@ == strings_view(sources@)[i],
            None => {
                let name = merge_output_name(strings_view(sources@), crate::text::opt_text(out));
                if !valid_component(name) {
                    r matches Err(MergeRequestError::Invalid(e)) && e.value@ == name
                } else if strings_view(sources@).contains(name) {
                    r matches Err(MergeRequestError::IntoSource(n)) && n@ == name
                } else {
                    r matches Ok(n) && n@ == name
                }
            },
        },
{
    let ghost sv = strings_view(sources@);
    if sources.len() < 2 {
        return Err(MergeRequestError::TooFew);
    }
    let mut i: usize = 0;
    while i < sources.len()
        invariant
            sources@.len() >= 2,
            i <= sources@.len(),
            sv == strings_view(sources@),
            first_repeat(sv, 0) == first_repeat(sv, i as int),
        decreases sources@.len() - i,
    {
        if repeats_earlier(sources, i) {
            return Err(MergeRequestError::Duplicate(sources[i].clone()));
        }
        i = i + 1;
    }
    let name = match out {
        Some(o) => o.to_owned(),
        None => join_plus(sources),
    };
    match validate_component(name.as_str(), "profile name") {
        Err(e) => return Err(MergeRequestError::Invalid(e)),
        Ok(()) => {}
    }
    if contains_string(sources, &name) {
        return Err(MergeRequestError::IntoSource(name));
    }
    Ok(name)
}

/// When the merged profile was first made: kept from the existing
/// output's record (`existing`, where a profile of that name exists), which
/// must be a merge output; else `now`.
pub fn merge_created_at(name: &str, existing: Option<Result<ProfileMeta, String>>, now: u64) -> (r: Result<u64, MergeRequestError>)
    ensures
        match existing {
            None => r == Ok::<u64, MergeRequestError>(now),
            Some(Err(e)) => r matches Err(MergeRequestError::Meta(e2)) && e2 == e,
            Some(Ok(m)) => if m.kind == ProfileKind::Merge {
                r == Ok::<u64, MergeRequestError>(m.created_at)
            } else {
                r matches Err(MergeRequestError::NotMergeOutput(n)) && n@ == name@
            },
        },
{
    match existing {
        None => Ok(now),
        Some(Err(e)) => Err(MergeRequestError::Meta(e)),
        Some(Ok(m)) => {
            if m.kind == ProfileKind::Merge {
                Ok(m.created_at)
            } else {
                Err(MergeRequestError::NotMergeOutput(name.to_owned()))
            }
        }
    }
}

/// The record of a merged profile made from `sources`.
pub fn merged_meta(sources: &Vec<String>, created_at: u64, now: u64) -> (r: ProfileMeta)
    ensures
        r.kind == ProfileKind::Merge,
        r.url is None,
        r.user_agent is None,
        r.sources@ == sources@,
        r.created_at == created_at,
        r.updated_at == Some(now),
{
    let mut copy: Vec<String> = Vec::new();
    let mut i: usize = 0;
    while i < sources.len()
        invariant
            i <= sources@.len(),
            copy@ == sources@.take(i as int),
        decreases sources@.len() - i,
    {
        copy.push(sources[i].clone());
        assert(copy@ =~= sources@.take(i + 1));
        i = i + 1;
    }
    assert(sources@.take(sources@.len() as int) =~= sources@);
    ProfileMeta {
        kind: ProfileKind::Merge,
        url: None,
        user_agent: None,
        sources: copy,
        created_at,
        updated_at: Some(now),
    }
}

} // verus!
