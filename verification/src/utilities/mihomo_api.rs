//! The kernel's control API: its addresses, and what its JSON responses
//! (held in the document model) say of traffic, proxies and delays.

use vstd::prelude::*;
use vstd::string::StringSliceAdditionalSpecFns;

use crate::sort::{keys_sorted, lemma_map_permutation, sort_by_key, TextKeyed};
use crate::text::{decimal, decimal_string, parse_unsigned, chars_of, parse_u64, push_char};
use crate::yaml::{dict_view, group_yaml_view, lookup, Yaml, YamlV};

verus! {

broadcast use group_yaml_view;

/// Bytes per second sent and received, as the kernel reports them.
#[derive(Debug, Clone, Copy, PartialEq, Eq, Structural)]
pub struct TrafficInfo {
    pub up: u64,
    pub down: u64,
}

/// A proxy node: its name, its protocol, and its last measured delay in
/// milliseconds where one is known.
#[derive(Debug)]
pub struct ProxyInfo {
    pub name: String,
    pub proxy_type: String,
    pub delay: Option<u32>,
}

impl TextKeyed for ProxyInfo {
    open spec fn key_view(&self) -> Seq<char> {
        self.name@
    }

    fn key(&self) -> (r: &str) {
        self.name.as_str()
    }
}

pub open spec fn proxy_view(p: ProxyInfo) -> (Seq<char>, Seq<char>, Option<u32>) {
    (p.name@, p.proxy_type@, p.delay)
}

pub open spec fn proxies_view(s: Seq<ProxyInfo>) -> Seq<(Seq<char>, Seq<char>, Option<u32>)> {
    s.map_values(|p: ProxyInfo| proxy_view(p))
}

/// The API's address on this machine at `port`.
pub fn api_base_url(port: u16) -> (r: String)
    ensures
        r@ == "http://127.0.0.1:"@ + decimal(port as nat),
{
    let mut r = "http://127.0.0.1:".to_owned();
    let p = decimal_string(port as u64);
    r.append(p.as_str());
    r
}

/// `base` followed by `path`.
pub fn endpoint(base: &str, path: &str) -> (r: String)
    ensures
        r@ == base@ + path@,
{
    let mut r = base.to_owned();
    r.append(path);
    r
}

/// Bytes that stand for themselves in a URL path: ASCII letters and
/// digits, `-`, `.`, `_` and `~`.
pub open spec fn unreserved(b: u8) -> bool {
    (0x30 <= b <= 0x39) || (0x41 <= b <= 0x5a) || (0x61 <= b <= 0x7a) || b == 0x2d || b == 0x2e
        || b == 0x5f || b == 0x7e
}

/// An upper-case hexadecimal digit.
pub open spec fn hex_digit(d: int) -> char {
    if d < 10 {
        ((d + 48) as u8) as char
    } else {
        ((d + 55) as u8) as char
    }
}

pub open spec fn encode_byte(b: u8) -> Seq<char> {
    if unreserved(b) {
        seq![b as char]
    } else {
        seq!['%', hex_digit(b as int / 16), hex_digit(b as int % 16)]
    }
}

/// Percent-encoding of UTF-8 bytes: an unreserved byte as itself, any
/// other as `%` and two upper-case hexadecimal digits.
pub open spec fn percent_encoded(bytes: Seq<u8>) -> Seq<char>
    decreases bytes.len(),
{
    if bytes.len() == 0 {
        Seq::empty()
    } else {
        percent_encoded(bytes.drop_last()) + encode_byte(bytes.last())
    }
}

fn hex_char(d: u8) -> (c: char)
    requires
        d < 16,
    ensures
        c == hex_digit(d as int),
{
    if d < 10 {
        (d + 48) as char
    } else {
        (d + 55) as char
    }
}

/// Percent-encodes the UTF-8 form of `value` (see `percent_encoded`).
pub fn percent_encode(value: &str) -> (r: String)
    ensures
        r@ == percent_encoded(value.spec_bytes()),
{
    let bytes = value.as_bytes();
    let mut encoded = String::new();
    let mut i: usize = 0;
    while i < bytes.len()
        invariant
            bytes@ == value.spec_bytes(),
            i <= bytes@.len(),
            encoded@ == percent_encoded(bytes@.take(i as int)),
        decreases bytes@.len() - i,
    {
        let b = bytes[i];
        proof {
            assert(bytes@.take(i + 1).drop_last() =~= bytes@.take(i as int));
            assert(bytes@.take(i + 1).last() == b);
        }
        let keep = (0x30 <= b && b <= 0x39) || (0x41 <= b && b <= 0x5a) || (0x61 <= b && b <= 0x7a) || b == 0x2d
            || b == 0x2e || b == 0x5f || b == 0x7e;
        if keep {
            push_char(&mut encoded, b as char);
        } else {
            push_char(&mut encoded, '%');
            push_char(&mut encoded, hex_char(b / 16));
            push_char(&mut encoded, hex_char(b % 16));
        }
        assert(encoded@ =~= percent_encoded(bytes@.take(i + 1)));
        i = i + 1;
    }
    assert(bytes@.take(bytes@.len() as int) =~= bytes@);
    encoded
}

/// The address that asks the kernel to measure `proxy_name`'s delay.
pub fn delay_url(base: &str, proxy_name: &str) -> (r: String)
    ensures
        r@ == base@ + "/proxies/"@ + percent_encoded(proxy_name.spec_bytes())
            + "/delay?timeout=5000&url=https://www.gstatic.com/generate_204"@,
{
    let mut r = base.to_owned();
    r.append("/proxies/");
    let enc = percent_encode(proxy_name);
    r.append(enc.as_str());
    r.append("/delay?timeout=5000&url=https://www.gstatic.com/generate_204");
    r
}

/// The value of a JSON number that is an unsigned integer no greater
/// than `max` (`as_u64`, then a conversion where `max` is smaller).
pub open spec fn json_uint(v: Option<YamlV>, max: nat) -> Option<nat> {
    match v {
        Some(YamlV::Number(n)) => parse_unsigned(n, max),
        _ => None,
    }
}

/// The groups that are not proxies: `GLOBAL`, `DIRECT` and `REJECT`.
pub open spec fn builtin_proxy(name: Seq<char>) -> bool {
    name == "GLOBAL"@ || name == "DIRECT"@ || name == "REJECT"@
}

/// A proxy's protocol: its `type` where that is a string, else `unknown`.
pub open spec fn proxy_type_of(v: YamlV) -> Seq<char> {
    match lookup(v, "type"@) {
        Some(YamlV::Text(t)) => t,
        _ => "unknown"@,
    }
}

/// A proxy's delay: the `delay` of the last entry of its `history`, where
/// that is an unsigned integer that fits a `u32`.
pub open spec fn proxy_delay_of(v: YamlV) -> Option<u32> {
    match lookup(v, "history"@) {
        Some(YamlV::List(h)) => if h.len() > 0 {
            match json_uint(lookup(h.last(), "delay"@), u32::MAX as nat) {
                Some(d) => Some(d as u32),
                None => None,
            }
        } else {
            None
        },
        _ => None,
    }
}

/// The proxies among the entries of the response's `proxies` object, in
/// the response's order.
pub open spec fn proxy_rows(d: Seq<(YamlV, YamlV)>) -> Seq<(Seq<char>, Seq<char>, Option<u32>)>
    decreases d.len(),
{
    if d.len() == 0 {
        Seq::empty()
    } else {
        let rest = proxy_rows(d.drop_last());
        match d.last().0 {
            YamlV::Text(name) => if builtin_proxy(name) {
                rest
            } else {
                rest.push((name, proxy_type_of(d.last().1), proxy_delay_of(d.last().1)))
            },
            _ => rest,
        }
    }
}

/// The proxies a `/proxies` response lists: none where it has no
/// `proxies` object.
pub open spec fn listed_proxies(response: YamlV) -> Seq<(Seq<char>, Seq<char>, Option<u32>)> {
    match lookup(response, "proxies"@) {
        Some(YamlV::Dict(d)) => proxy_rows(d),
        _ => Seq::empty(),
    }
}

/// Whether an entry of the `proxies` object is listed: its key is a name
/// other than the built-in groups.
pub open spec fn listed_entry(e: (YamlV, YamlV)) -> bool {
    e.0 is Text && !builtin_proxy(e.0->Text_0)
}

/// The row of a listed entry: its name, protocol and last delay.
pub open spec fn entry_row(e: (YamlV, YamlV)) -> (Seq<char>, Seq<char>, Option<u32>) {
    (e.0->Text_0, proxy_type_of(e.1), proxy_delay_of(e.1))
}

proof fn lemma_proxy_rows_filter(d: Seq<(YamlV, YamlV)>)
    ensures
        proxy_rows(d) == d.filter(|e: (YamlV, YamlV)| listed_entry(e)).map_values(|e: (YamlV, YamlV)| entry_row(e)),
    decreases d.len(),
{
    reveal(Seq::filter);
    let p = |e: (YamlV, YamlV)| listed_entry(e);
    let f = |e: (YamlV, YamlV)| entry_row(e);
    if d.len() > 0 {
        lemma_proxy_rows_filter(d.drop_last());
        let sub = d.drop_last().filter(p);
        if listed_entry(d.last()) {
            assert(sub.push(d.last()).map_values(f) =~= sub.map_values(f).push(f(d.last())));
        }
    } else {
        assert(d.filter(p).map_values(f) =~= Seq::<(Seq<char>, Seq<char>, Option<u32>)>::empty());
    }
}

/// What a `/proxies` response lists: nothing where it has no `proxies`
/// object; else one row for each entry of that object whose key is a name
/// other than `GLOBAL`, `DIRECT` and `REJECT`, in the object's order, with
/// the entry's name, its `type` (`unknown` where that is no string) and the
/// `delay` of the last entry of its `history` where that is an unsigned
/// integer that fits a `u32`. `proxies_from_response` returns these rows
/// sorted by name.
pub proof fn lemma_listed_proxies(response: YamlV)
    ensures
        match lookup(response, "proxies"@) {
            Some(YamlV::Dict(d)) => listed_proxies(response) == d.filter(|e: (YamlV, YamlV)| listed_entry(e)).map_values(
                |e: (YamlV, YamlV)| entry_row(e),
            ),
            _ => listed_proxies(response) == Seq::<(Seq<char>, Seq<char>, Option<u32>)>::empty(),
        },
{
    if let Some(YamlV::Dict(d)) = lookup(response, "proxies"@) {
        lemma_proxy_rows_filter(d);
    }
}

fn text_value(v: Option<&Yaml>) -> (r: Option<&String>)
    ensures
        match r {
            Some(s) => v matches Some(y) && y@ == YamlV::Text(s@),
            None => !(v matches Some(y) && y@ is Text),
        },
{
    match v {
        Some(Yaml::String(s)) => Some(s),
        _ => None,
    }
}

fn uint_value(v: Option<&Yaml>, max: u64) -> (r: Option<u64>)
    ensures
        match v {
            Some(y) => match r {
                Some(n) => json_uint(Some(y@), max as nat) == Some(n as nat),
                None => json_uint(Some(y@), max as nat) is None,
            },
            None => r is None,
        },
{
    match v {
        Some(Yaml::Number(n)) => {
            let cs = chars_of(n.as_str());
            match parse_u64(cs.as_slice()) {
                Some(k) => {
                    if k <= max {
                        Some(k)
                    } else {
                        None
                    }
                }
                None => None,
            }
        }
        _ => None,
    }
}

/// How one proxy of the response is listed.
fn proxy_of(name: &String, v: &Yaml) -> (r: ProxyInfo)
    ensures
        proxy_view(r) == (name@, proxy_type_of(v@), proxy_delay_of(v@)),
{
    let proxy_type = match text_value(v.get("type")) {
        Some(t) => t.clone(),
        None => "unknown".to_owned(),
    };
    let delay = match v.get("history") {
        Some(Yaml::Sequence(h)) => {
            if h.len() > 0 {
                assert(crate::yaml::list_view(h@).last() == h@[h@.len() - 1]@);
                match uint_value(h[h.len() - 1].get("delay"), 0xffff_ffffu64) {
                    Some(d) => Some(d as u32),
                    None => None,
                }
            } else {
                None
            }
        }
        _ => None,
    };
    ProxyInfo { name: name.clone(), proxy_type, delay }
}

/// The proxies a `/proxies` response lists (see `listed_proxies`), sorted
/// by name.
pub fn proxies_from_response(response: &Yaml) -> (r: Vec<ProxyInfo>)
    ensures
        keys_sorted(r@),
        proxies_view(r@).to_multiset() =~= listed_proxies(response@).to_multiset(),
{
    let mut rows: Vec<ProxyInfo> = Vec::new();
    match response.get("proxies") {
        Some(Yaml::Mapping(m)) => {
            let ghost d = dict_view(m@);
            let mut i: usize = 0;
            while i < m.len()
                invariant
                    i <= m@.len(),
                    d == dict_view(m@),
                    proxies_view(rows@) == proxy_rows(d.take(i as int)),
                decreases m@.len() - i,
            {
                proof {
                    assert(d.take(i + 1).drop_last() =~= d.take(i as int));
                    assert(d.take(i + 1).last() == d[i as int]);
                }
                let (k, v) = &m[i];
                match k {
                    Yaml::String(name) => {
                        if !crate::text::same_text(name.as_str(), "GLOBAL") && !crate::text::same_text(
                            name.as_str(),
                            "DIRECT",
                        ) && !crate::text::same_text(name.as_str(), "REJECT") {
                            let ghost before = proxies_view(rows@);
                            let row = proxy_of(name, v);
                            let ghost rv = proxy_view(row);
                            rows.push(row);
                            assert(proxies_view(rows@) =~= before.push(rv));
                        }
                    }
                    _ => {}
                }
                i = i + 1;
            }
            assert(d.take(m@.len() as int) =~= d);
            assert(proxies_view(rows@) == listed_proxies(response@));
        }
        _ => {
            assert(proxies_view(rows@) =~= listed_proxies(response@));
        }
    }
    assert(proxies_view(rows@) == listed_proxies(response@));
    let sorted = sort_by_key(rows);
    proof {
        let f = |p: ProxyInfo| proxy_view(p);
        lemma_map_permutation(sorted@, rows@, f);
        assert(sorted@.map_values(f) =~= proxies_view(sorted@));
        assert(rows@.map_values(f) =~= proxies_view(rows@));
    }
    sorted
}

/// The proxy the `GLOBAL` group uses, from a `/proxies` response.
pub open spec fn current_proxy_of(response: YamlV) -> Option<Seq<char>> {
    match lookup(response, "proxies"@) {
        Some(p) => match lookup(p, "GLOBAL"@) {
            Some(g) => match lookup(g, "now"@) {
                Some(YamlV::Text(t)) => Some(t),
                _ => None,
            },
            None => None,
        },
        None => None,
    }
}

/// See `current_proxy_of`.
pub fn current_proxy(response: &Yaml) -> (r: Option<String>)
    ensures
        match r {
            Some(s) => current_proxy_of(response@) == Some(s@),
            None => current_proxy_of(response@) is None,
        },
{
    match response.get("proxies") {
        Some(p) => match p.get("GLOBAL") {
            Some(g) => match text_value(g.get("now")) {
                Some(t) => Some(t.clone()),
                None => None,
            },
            None => None,
        },
        None => None,
    }
}

/// Why a delay response gave no delay.
#[derive(Debug, Clone, Copy, PartialEq, Eq, Structural)]
pub enum DelayError {
    /// It has no `delay` that is an unsigned integer.
    Missing,
    /// The delay does not fit a `u32`.
    OutOfRange,
}

impl DelayError {
    pub fn message(&self) -> (m: &'static str)
        ensures
            m@ == (match *self {
                DelayError::Missing => "mihomo delay response missing delay"@,
                DelayError::OutOfRange => "out of range integral type conversion attempted"@,
            }),
    {
        match self {
            DelayError::Missing => "mihomo delay response missing delay",
            DelayError::OutOfRange => "out of range integral type conversion attempted",
        }
    }
}

/// The delay a delay response reports, in milliseconds.
pub fn delay_from_response(response: &Yaml) -> (r: Result<u32, DelayError>)
    ensures
        match json_uint(lookup(response@, "delay"@), u64::MAX as nat) {
            None => r == Err::<u32, DelayError>(DelayError::Missing),
            Some(d) => if d <= u32::MAX {
                r == Ok::<u32, DelayError>(d as u32)
            } else {
                r == Err::<u32, DelayError>(DelayError::OutOfRange)
            },
        },
{
    let found = response.get("delay");
    match uint_value(found, u64::MAX) {
        None => {
            proof {
                if found is None {
                    assert(lookup(response@, "delay"@) is None);
                }
            }
            Err(DelayError::Missing)
        }
        Some(d) => {
            if d <= 0xffff_ffffu64 {
                Ok(d as u32)
            } else {
                Err(DelayError::OutOfRange)
            }
        }
    }
}

} // verus!
