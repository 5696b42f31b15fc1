use bnvr::network::config::inject_tun_config;
use bnvr::profile::crud::{add, ProfileKind};
use bnvr::profile::merge::{merge_created_at, merge_documents, merged_meta, MergeStats};
use bnvr::profile::sync::{validate_config, ConfigInvalid};
use bnvr::profile::view::navigate_path;
use bnvr::utilities::mihomo_api::{
    api_base_url, current_proxy, delay_from_response, delay_url, endpoint, percent_encode, proxies_from_response,
    DelayError,
};
use bnvr::yaml::Yaml;

fn to_yaml(v: &serde_yaml::Value) -> Yaml {
    match v {
        serde_yaml::Value::Null => Yaml::Null,
        serde_yaml::Value::Bool(b) => Yaml::Bool(*b),
        serde_yaml::Value::Number(n) => Yaml::Number(n.to_string()),
        serde_yaml::Value::String(s) => Yaml::String(s.clone()),
        serde_yaml::Value::Sequence(items) => Yaml::Sequence(items.iter().map(to_yaml).collect()),
        serde_yaml::Value::Mapping(m) => Yaml::Mapping(m.iter().map(|(k, v)| (to_yaml(k), to_yaml(v))).collect()),
        serde_yaml::Value::Tagged(t) => Yaml::Tagged(t.tag.to_string(), Box::new(to_yaml(&t.value))),
    }
}

fn parse(text: &str) -> Yaml {
    to_yaml(&serde_yaml::from_str::<serde_yaml::Value>(text).unwrap())
}

fn doc(name: &str, text: &str) -> (String, Yaml) {
    (name.to_string(), parse(text))
}

fn get<'a>(v: &'a Yaml, key: &str) -> &'a Yaml {
    v.get(key).unwrap()
}

fn seq<'a>(v: &'a Yaml, key: &str) -> &'a Vec<Yaml> {
    match get(v, key) {
        Yaml::Sequence(items) => items,
        _ => panic!("{key} is not a sequence"),
    }
}

fn text(s: &str) -> Yaml {
    Yaml::String(s.to_string())
}

#[test]
fn test_duplicate_proxy_identity_collapses() {
    let docs = vec![
        doc("a", "proxies:\n  - {name: a1, type: ss, server: 1.1.1.1, port: 443, password: pw}\n"),
        doc("b", "proxies:\n  - {name: b1, type: ss, server: 1.1.1.1, port: '443', password: pw}\n"),
    ];
    let (merged, stats) = merge_documents(&docs).unwrap();
    assert_eq!(seq(&merged, "proxies").len(), 1);
    assert_eq!(stats.dropped, 1);
}

#[test]
fn test_same_name_different_server_is_renamed() {
    let docs = vec![
        doc("a", "proxies:\n  - {name: node1, type: ss, server: 1.1.1.1, port: 443, password: pw1}\n"),
        doc("b", "proxies:\n  - {name: node1, type: ss, server: 2.2.2.2, port: 443, password: pw2}\n"),
    ];
    let (merged, _) = merge_documents(&docs).unwrap();
    assert_eq!(seq(&merged, "proxies")[1].field("name"), "node1 (b)");
}

#[test]
fn test_group_members_union_in_order() {
    let docs = vec![
        doc(
            "a",
            "proxies:\n  - {name: a1, type: ss, server: 1.1.1.1, port: 443}\nproxy-groups:\n  - {name: PROXY, type: select, proxies: [a1]}\n",
        ),
        doc(
            "b",
            "proxies:\n  - {name: b1, type: ss, server: 2.2.2.2, port: 443}\nproxy-groups:\n  - {name: PROXY, type: select, proxies: [b1, DIRECT]}\n",
        ),
    ];
    let (merged, _) = merge_documents(&docs).unwrap();
    let members = seq(&seq(&merged, "proxy-groups")[0], "proxies");
    assert_eq!(members, &vec![text("a1"), text("b1"), text("DIRECT")]);
}

#[test]
fn test_group_member_duplicate_rewritten_to_winner() {
    let docs = vec![
        doc(
            "a",
            "proxies:\n  - {name: a1, type: ss, server: 1.1.1.1, port: 443, password: pw}\nproxy-groups:\n  - {name: PROXY, type: select, proxies: [a1]}\n",
        ),
        doc(
            "b",
            "proxies:\n  - {name: b1, type: ss, server: 1.1.1.1, port: 443, password: pw}\nproxy-groups:\n  - {name: PROXY, type: select, proxies: [b1]}\n",
        ),
    ];
    let (merged, _) = merge_documents(&docs).unwrap();
    let members = seq(&seq(&merged, "proxy-groups")[0], "proxies");
    assert_eq!(members, &vec![text("a1")]);
}

#[test]
fn test_duplicate_rules_once_order_preserved() {
    let docs = vec![
        doc("a", "rules:\n  - MATCH,PROXY\n  - DOMAIN,example.com,DIRECT\n"),
        doc("b", "rules:\n  - MATCH,PROXY\n  - DOMAIN,example.org,DIRECT\n"),
    ];
    let (merged, stats) = merge_documents(&docs).unwrap();
    let rules = seq(&merged, "rules");
    assert_eq!(rules.len(), 3);
    assert_eq!(rules[0], text("MATCH,PROXY"));
    assert_eq!(rules[2], text("DOMAIN,example.org,DIRECT"));
    assert_eq!(stats, MergeStats { proxies: 0, dropped: 0, groups: 0, rules: 3 });
}

#[test]
fn test_top_level_scalar_first_wins() {
    let docs = vec![doc("a", "mixed-port: 7890\n"), doc("b", "mixed-port: 1080\n")];
    let (merged, _) = merge_documents(&docs).unwrap();
    assert_eq!(merged.field("mixed-port"), "7890");
}

#[test]
fn test_sequence_root_errors() {
    let docs = vec![doc("a", "- nope\n")];
    let err = merge_documents(&docs).unwrap_err();
    assert!(err.message().contains("expected a YAML mapping"));
}

fn sample_yaml() -> Yaml {
    parse(
        "proxies:\n  - name: node1\n    type: ss\n  - name: node2\n    type: vmess\nrules:\n  - DOMAIN-SUFFIX,google.com,Proxy\nport: 7890\n",
    )
}

#[test]
fn test_navigate_object_key() {
    let val = sample_yaml();
    let result = navigate_path(&val, "port").unwrap();
    assert_eq!(result, &Yaml::Number("7890".into()));
}

#[test]
fn test_navigate_array_index() {
    let val = sample_yaml();
    let result = navigate_path(&val, "proxies.0").unwrap();
    assert_eq!(navigate_path(result, "name"), Some(&text("node1")));
}

#[test]
fn test_navigate_nested() {
    let val = sample_yaml();
    let result = navigate_path(&val, "proxies.1.type").unwrap();
    assert_eq!(result, &text("vmess"));
}

#[test]
fn test_navigate_empty_path() {
    let val = sample_yaml();
    assert!(navigate_path(&val, "").is_none());
}

#[test]
fn test_navigate_invalid_key() {
    let val = sample_yaml();
    assert!(navigate_path(&val, "nonexistent").is_none());
}

#[test]
fn test_navigate_array_out_of_bounds() {
    let val = sample_yaml();
    assert!(navigate_path(&val, "proxies.99").is_none());
}

#[test]
fn test_navigate_array_non_numeric() {
    let val = sample_yaml();
    assert!(navigate_path(&val, "proxies.abc").is_none());
}

#[test]
fn test_inject_tun_config_adds_tun_dns_and_bypass_rules() {
    let routes = vec!["192.168.1.0/24".to_string(), "10.0.0.1/32".to_string()];
    let base = parse("proxies: []\nrules:\n  - MATCH,Proxy\n");
    let result = inject_tun_config(base, "tun-bnvr0", &routes).unwrap();
    assert_eq!(get(get(&result, "tun"), "device"), &text("tun-bnvr0"));
    assert_eq!(get(get(&result, "dns"), "enhanced-mode"), &text("fake-ip"));
    let rules = seq(&result, "rules");
    assert_eq!(rules[0], text("IP-CIDR,192.168.1.0/24,DIRECT"));
    assert_eq!(rules[1], text("IP-CIDR,10.0.0.1/32,DIRECT"));
    assert_eq!(rules[2], text("MATCH,Proxy"));
}

#[test]
fn inject_without_routes_keeps_rules_and_refuses_lists() {
    let base = parse("rules:\n  - MATCH,Proxy\nmode: rule\n");
    let result = inject_tun_config(base, "bnvr0", &Vec::new()).unwrap();
    assert_eq!(seq(&result, "rules"), &vec![text("MATCH,Proxy")]);
    assert_eq!(get(get(&result, "tun"), "stack"), &text("system"));
    assert_eq!(seq(get(&result, "dns"), "nameserver"), &vec![text("223.5.5.5"), text("119.29.29.29")]);
    assert!(inject_tun_config(parse("- a\n"), "bnvr0", &Vec::new()).is_err());
}

#[test]
fn config_validation() {
    assert!(validate_config(&parse("proxies: []\n")).is_ok());
    assert!(validate_config(&parse("proxy-providers: {}\n")).is_ok());
    assert_eq!(validate_config(&parse("port: 1\n")), Err(ConfigInvalid::NoProxies));
    assert_eq!(validate_config(&parse("- a\n")), Err(ConfigInvalid::NotMapping));
    assert_eq!(ConfigInvalid::NoProxies.message(), "invalid config: missing `proxies` and `proxy-providers`");
}

#[test]
fn api_addresses() {
    let base = api_base_url(9090);
    assert_eq!(base, "http://127.0.0.1:9090");
    assert_eq!(endpoint(&base, "/traffic"), "http://127.0.0.1:9090/traffic");
    assert_eq!(percent_encode("日本 A-1_b.~"), "%E6%97%A5%E6%9C%AC%20A-1_b.~");
    assert_eq!(
        delay_url(&base, "hk/1"),
        "http://127.0.0.1:9090/proxies/hk%2F1/delay?timeout=5000&url=https://www.gstatic.com/generate_204"
    );
}

#[test]
fn proxies_response() {
    let response = parse(
        "proxies:\n  GLOBAL: {type: Selector, now: jp}\n  DIRECT: {type: Direct}\n  us: {type: ss, history: [{delay: 120}, {delay: 80}]}\n  jp: {type: vmess, history: []}\n  big: {history: [{delay: 5000000000}]}\n",
    );
    let proxies = proxies_from_response(&response);
    let names: Vec<&str> = proxies.iter().map(|p| p.name.as_str()).collect();
    assert_eq!(names, vec!["big", "jp", "us"]);
    assert_eq!(proxies[0].proxy_type, "unknown");
    assert_eq!(proxies[0].delay, None);
    assert_eq!(proxies[2].delay, Some(80));
    assert_eq!(current_proxy(&response).as_deref(), Some("jp"));
    assert!(proxies_from_response(&parse("other: 1\n")).is_empty());
}

#[test]
fn delay_response() {
    assert_eq!(delay_from_response(&parse("delay: 42\n")), Ok(42));
    assert_eq!(delay_from_response(&parse("message: timeout\n")), Err(DelayError::Missing));
    assert_eq!(delay_from_response(&parse("delay: 5000000000\n")), Err(DelayError::OutOfRange));
    assert_eq!(DelayError::Missing.message(), "mihomo delay response missing delay");
}

#[test]
fn test_merge_writes_merge_profile() {
    let docs = vec![
        doc(
            "alpha",
            "proxies:\n  - {name: a1, type: ss, server: 1.1.1.1, port: 443, password: pw1}\n  - {name: a2, type: ss, server: 2.2.2.2, port: 443, password: pw2}\n",
        ),
        doc(
            "beta",
            "proxies:\n  - {name: b1, type: ss, server: 1.1.1.1, port: 443, password: pw1}\n  - {name: b2, type: ss, server: 3.3.3.3, port: 443, password: pw3}\n",
        ),
    ];
    let (merged, stats) = merge_documents(&docs).unwrap();
    assert_eq!(seq(&merged, "proxies").len(), 3);
    assert_eq!(stats, MergeStats { proxies: 3, dropped: 1, groups: 0, rules: 0 });

    let sources = vec!["alpha".to_string(), "beta".to_string()];
    let created = merge_created_at("alpha+beta", None, 50).unwrap();
    assert_eq!(created, 50);
    let meta = merged_meta(&sources, created, 60);
    assert_eq!(meta.kind, ProfileKind::Merge);
    assert_eq!(meta.sources, sources);
    assert_eq!(meta.updated_at, Some(60));
    assert_eq!(merge_created_at("alpha+beta", Some(Ok(merged_meta(&sources, 7, 8))), 50).unwrap(), 7);
    let remote = add("x", "u", None, false, 10).unwrap();
    let err = merge_created_at("alpha+beta", Some(Ok(remote)), 50).unwrap_err();
    assert_eq!(err.message(), "profile alpha+beta already exists and is not a merge output");
}
