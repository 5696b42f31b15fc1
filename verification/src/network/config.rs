//! The kernel configuration for TUN mode: the device section, a fixed DNS
//! section, and bypass rules put ahead of the existing rules.

use vstd::prelude::*;

use crate::yaml::{lemma_entry_index_from, lemma_entry_index_is, lemma_lookup_put_other, lemma_lookup_put_same, lookup, dict_put, dict_view, entry_index, find_entry, group_yaml_view, list_view, put_entry, Yaml, YamlV};

verus! {

broadcast use group_yaml_view;

/// Why a configuration cannot be put into TUN mode.
#[derive(Debug, Clone, Copy, PartialEq, Eq, Structural)]
pub enum ConfigError {
    NotMapping,
}

impl ConfigError {
    pub fn message(&self) -> (m: &'static str)
        ensures
            m@ == "invalid config: expected a YAML mapping"@,
    {
        "invalid config: expected a YAML mapping"
    }
}

pub open spec fn text(s: Seq<char>) -> YamlV {
    YamlV::Text(s)
}

/// A list of strings.
pub open spec fn text_list(items: Seq<Seq<char>>) -> YamlV {
    YamlV::List(items.map_values(|t: Seq<char>| YamlV::Text(t)))
}

/// The `tun` section for the device `device`.
pub open spec fn tun_section(device: Seq<char>) -> YamlV {
    YamlV::Dict(
        seq![
            (text("enable"@), YamlV::Bool(true)),
            (text("device"@), text(device)),
            (text("stack"@), text("system"@)),
            (text("auto-route"@), YamlV::Bool(false)),
            (text("auto-detect-interface"@), YamlV::Bool(false)),
            (text("dns-hijack"@), YamlV::List(Seq::empty())),
        ],
    )
}

/// The `dns` section that TUN mode uses: fake IPs, two plain name servers
/// and two TLS fallbacks for addresses outside China.
pub open spec fn dns_section() -> YamlV {
    YamlV::Dict(
        seq![
            (text("enable"@), YamlV::Bool(true)),
            (text("listen"@), text("198.18.0.1:53"@)),
            (text("enhanced-mode"@), text("fake-ip"@)),
            (text("fake-ip-range"@), text("198.18.0.0/15"@)),
            (text("nameserver"@), text_list(seq!["223.5.5.5"@, "119.29.29.29"@])),
            (text("fallback"@), text_list(seq!["tls://1.1.1.1:853"@, "tls://8.8.8.8:853"@])),
            (
                text("fallback-filter"@),
                YamlV::Dict(
                    seq![
                        (text("geoip"@), YamlV::Bool(true)),
                        (text("geoip-code"@), text("CN"@)),
                        (text("ipcidr"@), text_list(seq!["240.0.0.0/4"@])),
                    ],
                ),
            ),
        ],
    )
}

/// The rule that sends `target` around the proxy.
pub open spec fn bypass_rule(target: Seq<char>) -> Seq<char> {
    "IP-CIDR,"@ + target + ",DIRECT"@
}

pub open spec fn bypass_rules(routes: Seq<Seq<char>>) -> Seq<YamlV> {
    routes.map_values(|t: Seq<char>| YamlV::Text(bypass_rule(t)))
}

/// Removes the entry under `key` as a swap-remove does: the last entry
/// takes its place. Gives the entries left and the value removed.
pub open spec fn dict_swap_remove(d: Seq<(YamlV, YamlV)>, key: Seq<char>) -> (Seq<(YamlV, YamlV)>, Option<YamlV>) {
    let k = entry_index(d, key);
    if k >= 0 {
        (d.update(k, d.last()).drop_last(), Some(d[k].1))
    } else {
        (d, None)
    }
}

/// The bypass rules put ahead of the existing `rules` list (an existing
/// value that is not a list is dropped); nothing changes without routes.
pub open spec fn with_bypass(d: Seq<(YamlV, YamlV)>, routes: Seq<Seq<char>>) -> Seq<(YamlV, YamlV)> {
    if routes.len() == 0 {
        d
    } else {
        let (rest, existing) = dict_swap_remove(d, "rules"@);
        let kept = match existing {
            Some(YamlV::List(items)) => items,
            _ => Seq::empty(),
        };
        dict_put(rest, "rules"@, YamlV::List(bypass_rules(routes) + kept))
    }
}

/// The entries of a configuration in TUN mode.
pub open spec fn tun_mode_entries(d: Seq<(YamlV, YamlV)>, device: Seq<char>, routes: Seq<Seq<char>>) -> Seq<(YamlV, YamlV)> {
    with_bypass(dict_put(dict_put(d, "tun"@, tun_section(device)), "dns"@, dns_section()), routes)
}

fn string_value(s: &str) -> (r: Yaml)
    ensures
        r@ == YamlV::Text(s@),
{
    Yaml::String(s.to_owned())
}

fn string_list(first: &str, second: Option<&str>) -> (r: Yaml)
    ensures
        r@ == text_list(
            match second {
                Some(t) => seq![first@, t@],
                None => seq![first@],
            },
        ),
{
    let mut v: Vec<Yaml> = Vec::new();
    v.push(string_value(first));
    match second {
        Some(t) => {
            v.push(string_value(t));
            assert(list_view(v@) =~= text_list(seq![first@, t@])->List_0);
        }
        None => {
            assert(list_view(v@) =~= text_list(seq![first@])->List_0);
        }
    }
    Yaml::Sequence(v)
}

fn entry(k: &str, v: Yaml) -> (r: (Yaml, Yaml))
    ensures
        r.0@ == YamlV::Text(k@),
        r.1@ == v@,
{
    (string_value(k), v)
}

/// The `tun` section (see `tun_section`).
pub fn tun_config(device_name: &str) -> (r: Yaml)
    ensures
        r@ == tun_section(device_name@),
{
    let mut m: Vec<(Yaml, Yaml)> = Vec::new();
    m.push(entry("enable", Yaml::Bool(true)));
    m.push(entry("device", string_value(device_name)));
    m.push(entry("stack", string_value("system")));
    m.push(entry("auto-route", Yaml::Bool(false)));
    m.push(entry("auto-detect-interface", Yaml::Bool(false)));
    let empty: Vec<Yaml> = Vec::new();
    assert(list_view(empty@) =~= Seq::<YamlV>::empty());
    m.push(entry("dns-hijack", Yaml::Sequence(empty)));
    assert(dict_view(m@) =~= tun_section(device_name@)->Dict_0);
    Yaml::Mapping(m)
}

/// The `dns` section (see `dns_section`).
pub fn dns_config() -> (r: Yaml)
    ensures
        r@ == dns_section(),
{
    let nameservers = string_list("223.5.5.5", Some("119.29.29.29"));
    let fallbacks = string_list("tls://1.1.1.1:853", Some("tls://8.8.8.8:853"));
    let cidrs = string_list("240.0.0.0/4", None);
    let mut filter: Vec<(Yaml, Yaml)> = Vec::new();
    filter.push(entry("geoip", Yaml::Bool(true)));
    filter.push(entry("geoip-code", string_value("CN")));
    filter.push(entry("ipcidr", cidrs));
    let mut m: Vec<(Yaml, Yaml)> = Vec::new();
    m.push(entry("enable", Yaml::Bool(true)));
    m.push(entry("listen", string_value("198.18.0.1:53")));
    m.push(entry("enhanced-mode", string_value("fake-ip")));
    m.push(entry("fake-ip-range", string_value("198.18.0.0/15")));
    m.push(entry("nameserver", nameservers));
    m.push(entry("fallback", fallbacks));
    let ghost fv = dict_view(filter@);
    assert(fv =~= dns_section()->Dict_0[6].1->Dict_0);
    m.push(entry("fallback-filter", Yaml::Mapping(filter)));
    assert(dict_view(m@) =~= dns_section()->Dict_0);
    Yaml::Mapping(m)
}

/// Removes the entry under `key` (see `dict_swap_remove`).
fn swap_remove_entry(m: &mut Vec<(Yaml, Yaml)>, key: &str) -> (r: Option<Yaml>)
    ensures
        dict_swap_remove(dict_view(old(m)@), key@).0 == dict_view(final(m)@),
        match r {
            Some(y) => dict_swap_remove(dict_view(old(m)@), key@).1 == Some(y@),
            None => dict_swap_remove(dict_view(old(m)@), key@).1 is None,
        },
{
    let ghost d = dict_view(m@);
    match find_entry(m, key) {
        Some(k) => {
            let removed = m.swap_remove(k);
            assert(dict_view(m@) =~= d.update(k as int, d.last()).drop_last());
            Some(removed.1)
        }
        None => None,
    }
}

/// The bypass rules for `routes`, in order.
fn bypass_rule_values(routes: &Vec<String>) -> (r: Vec<Yaml>)
    ensures
        list_view(r@) == bypass_rules(routes@.map_values(|s: String| s@)),
{
    let ghost rs = routes@.map_values(|s: String| s@);
    let mut v: Vec<Yaml> = Vec::new();
    let mut i: usize = 0;
    while i < routes.len()
        invariant
            i <= routes@.len(),
            rs == routes@.map_values(|s: String| s@),
            list_view(v@) == bypass_rules(rs.take(i as int)),
        decreases routes@.len() - i,
    {
        let mut rule = "IP-CIDR,".to_owned();
        rule.append(routes[i].as_str());
        rule.append(",DIRECT");
        let ghost before = v@;
        let ghost rv = rule@;
        v.push(Yaml::String(rule));
        proof {
            assert(list_view(v@) =~= list_view(before).push(YamlV::Text(rv)));
            assert(rs.take(i + 1) =~= rs.take(i as int).push(rs[i as int]));
            assert(bypass_rules(rs.take(i + 1)) =~= bypass_rules(rs.take(i as int)).push(
                YamlV::Text(bypass_rule(rs[i as int])),
            ));
        }
        i = i + 1;
    }
    assert(rs.take(routes@.len() as int) =~= rs);
    v
}

fn inject_bypass_rules(m: &mut Vec<(Yaml, Yaml)>, bypass_routes: &Vec<String>)
    ensures
        dict_view(final(m)@) == with_bypass(dict_view(old(m)@), bypass_routes@.map_values(|s: String| s@)),
{
    if bypass_routes.len() == 0 {
        return;
    }
    let existing = swap_remove_entry(m, "rules");
    let mut rules = bypass_rule_values(bypass_routes);
    let ghost head = list_view(rules@);
    match existing {
        Some(Yaml::Sequence(mut items)) => {
            let ghost tail = list_view(items@);
            rules.append(&mut items);
            assert(list_view(rules@) =~= head + tail);
        }
        _ => {
            assert(list_view(rules@) =~= head + Seq::<YamlV>::empty());
        }
    }
    put_entry(m, "rules", Yaml::Sequence(rules));
}

/// Puts a configuration into TUN mode: sets its `tun` section for the
/// device `device_name` and its `dns` section, and puts a `DIRECT` rule
/// for each bypass route ahead of its rules. A document that is not a
/// mapping is refused.
pub fn inject_tun_config(base: Yaml, device_name: &str, bypass_routes: &Vec<String>) -> (r: Result<Yaml, ConfigError>)
    ensures
        match base@ {
            YamlV::Dict(d) => r matches Ok(y) && y@ == YamlV::Dict(
                tun_mode_entries(d, device_name@, bypass_routes@.map_values(|s: String| s@)),
            ),
            _ => r == Err::<Yaml, ConfigError>(ConfigError::NotMapping),
        },
{
    match base {
        Yaml::Mapping(mut m) => {
            put_entry(&mut m, "tun", tun_config(device_name));
            put_entry(&mut m, "dns", dns_config());
            inject_bypass_rules(&mut m, bypass_routes);
            Ok(Yaml::Mapping(m))
        }
        _ => Err(ConfigError::NotMapping),
    }
}

/// No key appears twice among the entries, as in any YAML mapping.
pub open spec fn distinct_keys(d: Seq<(YamlV, YamlV)>) -> bool {
    forall|i: int, j: int| 0 <= i < j < d.len() ==> #[trigger] d[i].0 != #[trigger] d[j].0
}

proof fn lemma_lookup_at(d: Seq<(YamlV, YamlV)>, key: Seq<char>, t: int)
    requires
        distinct_keys(d),
        0 <= t < d.len(),
        d[t].0 == YamlV::Text(key),
    ensures
        lookup(YamlV::Dict(d), key) == Some(d[t].1),
{
    assert forall|u: int| 0 <= u < d.len() && (u < t || t == -1) implies d[u].0 != YamlV::Text(key) by {
        assert(d[u].0 != d[t].0);
    }
    lemma_entry_index_is(d, key, 0, t);
}

proof fn lemma_lookup_absent(d: Seq<(YamlV, YamlV)>, key: Seq<char>)
    requires
        forall|u: int| 0 <= u < d.len() ==> d[u].0 != YamlV::Text(key),
    ensures
        lookup(YamlV::Dict(d), key) is None,
{
    lemma_entry_index_is(d, key, 0, -1);
}

proof fn lemma_put_keeps_distinct(d: Seq<(YamlV, YamlV)>, key: Seq<char>, v: YamlV)
    requires
        distinct_keys(d),
    ensures
        distinct_keys(dict_put(d, key, v)),
{
    lemma_entry_index_from(d, key, 0);
    let d2 = dict_put(d, key, v);
    assert forall|i: int, j: int| 0 <= i < j < d2.len() implies #[trigger] d2[i].0 != #[trigger] d2[j].0 by {
        if j < d.len() {
            assert(d2[i].0 == d[i].0 && d2[j].0 == d[j].0);
        } else {
            assert(d2[j].0 == YamlV::Text(key));
            assert(d2[i].0 == d[i].0);
        }
    }
}

proof fn lemma_swap_remove_other(d: Seq<(YamlV, YamlV)>, key: Seq<char>, other: Seq<char>)
    requires
        distinct_keys(d),
        other != key,
    ensures
        distinct_keys(dict_swap_remove(d, key).0),
        lookup(YamlV::Dict(dict_swap_remove(d, key).0), other) == lookup(YamlV::Dict(d), other),
{
    lemma_entry_index_from(d, key, 0);
    lemma_entry_index_from(d, other, 0);
    let k = entry_index(d, key);
    if k >= 0 {
        let n = d.len() as int;
        let rest = dict_swap_remove(d, key).0;
        assert(rest == d.update(k, d.last()).drop_last());
        // each entry of `rest` is the entry of `d` at `src(i)`
        assert forall|i: int| 0 <= i < rest.len() implies rest[i] == d[if i == k { n - 1 } else { i }] by {}
        assert forall|i: int, j: int| 0 <= i < j < rest.len() implies #[trigger] rest[i].0 != #[trigger] rest[j].0 by {
            let a = if i == k { n - 1 } else { i };
            let b = if j == k { n - 1 } else { j };
            assert(a != b);
            if a < b {
                assert(d[a].0 != d[b].0);
            } else {
                assert(d[b].0 != d[a].0);
            }
        }
        let j = entry_index(d, other);
        if j >= 0 {
            assert(YamlV::Text(other) != YamlV::Text(key));
            assert(j != k);
            lemma_lookup_at(d, other, j);
            if j == n - 1 {
                assert(rest[k] == d[n - 1]);
                lemma_lookup_at(rest, other, k);
            } else {
                assert(rest[j] == d[j]);
                lemma_lookup_at(rest, other, j);
            }
        } else {
            assert forall|u: int| 0 <= u < rest.len() implies rest[u].0 != YamlV::Text(other) by {
                let a = if u == k { n - 1 } else { u };
                assert(rest[u] == d[a]);
            }
            lemma_lookup_absent(rest, other);
            lemma_lookup_absent(d, other);
        }
    }
}

/// The rules that a configuration keeps after the bypass rules: its
/// `rules` list, or none.
pub open spec fn kept_rules(d: Seq<(YamlV, YamlV)>) -> Seq<YamlV> {
    match lookup(YamlV::Dict(d), "rules"@) {
        Some(YamlV::List(items)) => items,
        _ => Seq::empty(),
    }
}

/// In TUN mode a configuration holds the device's `tun` section and the
/// fixed `dns` section; with bypass routes its `rules` are the bypass rules
/// followed by the rules it had; every other key keeps its value.
pub proof fn lemma_tun_mode_sections(d: Seq<(YamlV, YamlV)>, device: Seq<char>, routes: Seq<Seq<char>>, other: Seq<char>)
    requires
        distinct_keys(d),
    ensures
        lookup(YamlV::Dict(tun_mode_entries(d, device, routes)), "tun"@) == Some(tun_section(device)),
        lookup(YamlV::Dict(tun_mode_entries(d, device, routes)), "dns"@) == Some(dns_section()),
        routes.len() > 0 ==> lookup(YamlV::Dict(tun_mode_entries(d, device, routes)), "rules"@) == Some(
            YamlV::List(bypass_rules(routes) + kept_rules(d)),
        ),
        routes.len() == 0 ==> lookup(YamlV::Dict(tun_mode_entries(d, device, routes)), "rules"@) == lookup(
            YamlV::Dict(d),
            "rules"@,
        ),
        other != "tun"@ && other != "dns"@ && other != "rules"@ ==> lookup(
            YamlV::Dict(tun_mode_entries(d, device, routes)),
            other,
        ) == lookup(YamlV::Dict(d), other),
{
    reveal_strlit("tun");
    reveal_strlit("dns");
    reveal_strlit("rules");
    assert("dns"@[0] != "tun"@[0]);
    assert("tun"@.len() != "rules"@.len());
    assert("dns"@.len() != "rules"@.len());
    let d1 = dict_put(d, "tun"@, tun_section(device));
    let d2 = dict_put(d1, "dns"@, dns_section());
    lemma_put_keeps_distinct(d, "tun"@, tun_section(device));
    lemma_put_keeps_distinct(d1, "dns"@, dns_section());
    lemma_lookup_put_same(d, "tun"@, tun_section(device));
    lemma_lookup_put_other(d1, "dns"@, dns_section(), "tun"@);
    lemma_lookup_put_same(d1, "dns"@, dns_section());
    lemma_lookup_put_other(d, "tun"@, tun_section(device), "rules"@);
    lemma_lookup_put_other(d1, "dns"@, dns_section(), "rules"@);
    if other != "tun"@ && other != "dns"@ {
        lemma_lookup_put_other(d, "tun"@, tun_section(device), other);
        lemma_lookup_put_other(d1, "dns"@, dns_section(), other);
    }
    if routes.len() > 0 {
        let (rest, existing) = dict_swap_remove(d2, "rules"@);
        lemma_entry_index_from(d2, "rules"@, 0);
        assert(existing == lookup(YamlV::Dict(d2), "rules"@));
        let rules = YamlV::List(bypass_rules(routes) + kept_rules(d));
        lemma_swap_remove_other(d2, "rules"@, "tun"@);
        lemma_swap_remove_other(d2, "rules"@, "dns"@);
        lemma_lookup_put_same(rest, "rules"@, rules);
        lemma_lookup_put_other(rest, "rules"@, rules, "tun"@);
        lemma_lookup_put_other(rest, "rules"@, rules, "dns"@);
        if other != "tun"@ && other != "dns"@ && other != "rules"@ {
            lemma_swap_remove_other(d2, "rules"@, other);
            lemma_lookup_put_other(rest, "rules"@, rules, other);
        }
    }
}

} // verus!
