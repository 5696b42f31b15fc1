//! The configuration document model: a YAML value as the library holds it,
//! and its mathematical view.

use vstd::prelude::*;

verus! {

broadcast use vstd::std_specs::vec::group_vec_axioms;

/// A YAML value. A number is held as the text that its `Display` gives;
/// a mapping as its entries in document order.
#[derive(Debug, PartialEq)]
pub enum Yaml {
    Null,
    Bool(bool),
    Number(String),
    String(String),
    Sequence(Vec<Yaml>),
    Mapping(Vec<(Yaml, Yaml)>),
    Tagged(String, Box<Yaml>),
}

/// The view of a `Yaml` value.
pub enum YamlV {
    Null,
    Bool(bool),
    Number(Seq<char>),
    Text(Seq<char>),
    List(Seq<YamlV>),
    Dict(Seq<(YamlV, YamlV)>),
    Tagged(Seq<char>, Box<YamlV>),
}

pub open spec fn yaml_view(y: Yaml) -> YamlV
    decreases y, 0int,
{
    match y {
        Yaml::Null => YamlV::Null,
        Yaml::Bool(b) => YamlV::Bool(b),
        Yaml::Number(n) => YamlV::Number(n@),
        Yaml::String(s) => YamlV::Text(s@),
        Yaml::Sequence(v) => YamlV::List(items_view(v, 0)),
        Yaml::Mapping(m) => YamlV::Dict(entries_view(m, 0)),
        Yaml::Tagged(t, b) => YamlV::Tagged(t@, Box::new(yaml_view(*b))),
    }
}

/// Views of `v[i..]`.
pub open spec fn items_view(v: Vec<Yaml>, i: int) -> Seq<YamlV>
    decreases v, v.len() - i,
{
    if i < 0 || i >= v.len() {
        Seq::empty()
    } else {
        seq![yaml_view(v[i])] + items_view(v, i + 1)
    }
}

/// Views of the entries `m[i..]`.
pub open spec fn entries_view(m: Vec<(Yaml, Yaml)>, i: int) -> Seq<(YamlV, YamlV)>
    decreases m, m.len() - i,
{
    if i < 0 || i >= m.len() {
        Seq::empty()
    } else {
        seq![(yaml_view(m[i].0), yaml_view(m[i].1))] + entries_view(m, i + 1)
    }
}

impl View for Yaml {
    type V = YamlV;

    open spec fn view(&self) -> YamlV {
        yaml_view(*self)
    }
}


/// Views of a list of values.
pub open spec fn list_view(v: Seq<Yaml>) -> Seq<YamlV> {
    v.map_values(|y: Yaml| y@)
}

/// Views of a list of entries.
pub open spec fn dict_view(m: Seq<(Yaml, Yaml)>) -> Seq<(YamlV, YamlV)> {
    m.map_values(|e: (Yaml, Yaml)| (e.0@, e.1@))
}

proof fn lemma_items_view(v: Vec<Yaml>, i: int)
    requires
        0 <= i <= v.len(),
    ensures
        items_view(v, i) == list_view(v@.skip(i)),
    decreases v.len() - i,
{
    if i < v.len() {
        lemma_items_view(v, i + 1);
        assert(list_view(v@.skip(i)) =~= seq![yaml_view(v[i])] + list_view(v@.skip(i + 1)));
    } else {
        assert(list_view(v@.skip(i)) =~= Seq::<YamlV>::empty());
    }
}

proof fn lemma_entries_view(m: Vec<(Yaml, Yaml)>, i: int)
    requires
        0 <= i <= m.len(),
    ensures
        entries_view(m, i) == dict_view(m@.skip(i)),
    decreases m.len() - i,
{
    if i < m.len() {
        lemma_entries_view(m, i + 1);
        assert(dict_view(m@.skip(i)) =~= seq![(yaml_view(m[i].0), yaml_view(m[i].1))] + dict_view(m@.skip(i + 1)));
    } else {
        assert(dict_view(m@.skip(i)) =~= Seq::<(YamlV, YamlV)>::empty());
    }
}

/// A sequence views as the list of its items' views.
pub broadcast proof fn lemma_sequence_view(v: Vec<Yaml>)
    ensures
        #[trigger] Yaml::Sequence(v)@ == YamlV::List(list_view(v@)),
{
    lemma_items_view(v, 0);
    assert(v@.skip(0) =~= v@);
}

/// A mapping views as the list of its entries' views.
pub broadcast proof fn lemma_mapping_view(m: Vec<(Yaml, Yaml)>)
    ensures
        #[trigger] Yaml::Mapping(m)@ == YamlV::Dict(dict_view(m@)),
{
    lemma_entries_view(m, 0);
    assert(m@.skip(0) =~= m@);
}

pub broadcast group group_yaml_view {
    lemma_sequence_view,
    lemma_mapping_view,
}

impl Yaml {
    /// A copy of the value.
    #[verifier::loop_isolation(false)]
    pub fn deep_clone(&self) -> (r: Yaml)
        ensures
            r@ == self@,
        decreases self,
    {
        broadcast use group_yaml_view;

        match self {
            Yaml::Null => Yaml::Null,
            Yaml::Bool(b) => Yaml::Bool(*b),
            Yaml::Number(n) => Yaml::Number(n.clone()),
            Yaml::String(s) => Yaml::String(s.clone()),
            Yaml::Sequence(v) => {
                let mut out: Vec<Yaml> = Vec::new();
                let mut i: usize = 0;
                while i < v.len()
                    invariant
                        i <= v@.len(),
                        list_view(out@) == list_view(v@.take(i as int)),
                    decreases v@.len() - i,
                {
                    let c = v[i].deep_clone();
                    let ghost prev = out@;
                    out.push(c);
                    i = i + 1;
                    assert(v@.take(i as int) =~= v@.take(i - 1).push(v@[i - 1]));
                    assert(list_view(out@) =~= list_view(prev).push(c@));
                    assert(list_view(v@.take(i as int)) =~= list_view(v@.take(i - 1)).push(v@[i - 1]@));
                }
                assert(v@.take(v@.len() as int) =~= v@);
                proof {
                    lemma_sequence_view(*v);
                    lemma_sequence_view(out);
                }
                Yaml::Sequence(out)
            }
            Yaml::Mapping(m) => {
                let mut out: Vec<(Yaml, Yaml)> = Vec::new();
                let mut i: usize = 0;
                while i < m.len()
                    invariant
                        i <= m@.len(),
                        dict_view(out@) == dict_view(m@.take(i as int)),
                    decreases m@.len() - i,
                {
                    let k = m[i].0.deep_clone();
                    let val = m[i].1.deep_clone();
                    let ghost prev = out@;
                    let ghost kv = (k@, val@);
                    out.push((k, val));
                    i = i + 1;
                    assert(m@.take(i as int) =~= m@.take(i - 1).push(m@[i - 1]));
                    assert(dict_view(out@) =~= dict_view(prev).push(kv));
                    assert(dict_view(m@.take(i as int)) =~= dict_view(m@.take(i - 1)).push((m@[i - 1].0@, m@[i - 1].1@)));
                }
                assert(m@.take(m@.len() as int) =~= m@);
                proof {
                    lemma_mapping_view(*m);
                    lemma_mapping_view(out);
                }
                Yaml::Mapping(out)
            }
            Yaml::Tagged(t, b) => {
                let inner = (**b).deep_clone();
                Yaml::Tagged(t.clone(), Box::new(inner))
            }
        }
    }

    /// Whether two values are the same (the same variant, the same text,
    /// the same items and entries in the same order).
    #[verifier::loop_isolation(false)]
    pub fn same_as(&self, other: &Yaml) -> (r: bool)
        ensures
            r == (self@ == other@),
        decreases self,
    {
        broadcast use group_yaml_view;

        match (self, other) {
            (Yaml::Null, Yaml::Null) => {
                assert(self@ == YamlV::Null && other@ == YamlV::Null);
                true
            }
            (Yaml::Bool(a), Yaml::Bool(b)) => {
                assert(self@ == YamlV::Bool(*a) && other@ == YamlV::Bool(*b));
                *a == *b
            }
            (Yaml::Number(a), Yaml::Number(b)) => *a == *b,
            (Yaml::String(a), Yaml::String(b)) => *a == *b,
            (Yaml::Sequence(v), Yaml::Sequence(w)) => {
                proof {
                    lemma_sequence_view(*v);
                    lemma_sequence_view(*w);
                }
                if v.len() != w.len() {
                    assert(list_view(v@).len() != list_view(w@).len());
                    return false;
                }
                let mut i: usize = 0;
                while i < v.len()
                    invariant
                        i <= v@.len(),
                        v@.len() == w@.len(),
                        forall|k: int| 0 <= k < i ==> v@[k]@ == w@[k]@,
                    decreases v@.len() - i,
                {
                    if !v[i].same_as(&w[i]) {
                        assert(list_view(v@)[i as int] != list_view(w@)[i as int]);
                        return false;
                    }
                    i = i + 1;
                }
                assert(list_view(v@) =~= list_view(w@));
                true
            }
            (Yaml::Mapping(m), Yaml::Mapping(n)) => {
                proof {
                    lemma_mapping_view(*m);
                    lemma_mapping_view(*n);
                }
                if m.len() != n.len() {
                    assert(dict_view(m@).len() != dict_view(n@).len());
                    return false;
                }
                let mut i: usize = 0;
                while i < m.len()
                    invariant
                        i <= m@.len(),
                        m@.len() == n@.len(),
                        forall|k: int| 0 <= k < i ==> m@[k].0@ == n@[k].0@ && m@[k].1@ == n@[k].1@,
                    decreases m@.len() - i,
                {
                    if !m[i].0.same_as(&n[i].0) || !m[i].1.same_as(&n[i].1) {
                        assert(dict_view(m@)[i as int] != dict_view(n@)[i as int]);
                        return false;
                    }
                    i = i + 1;
                }
                assert(dict_view(m@) =~= dict_view(n@));
                true
            }
            (Yaml::Tagged(t, a), Yaml::Tagged(u, b)) => {
                *t == *u && (**a).same_as(&**b)
            }
            _ => false,
        }
    }
}


/// Index of the first entry of `d`, from `from` on, whose key is the string
/// `key`; `-1` where there is none.
pub open spec fn entry_index_from(d: Seq<(YamlV, YamlV)>, key: Seq<char>, from: int) -> int
    decreases d.len() - from,
{
    if from < 0 || from >= d.len() {
        -1
    } else if d[from].0 == YamlV::Text(key) {
        from
    } else {
        entry_index_from(d, key, from + 1)
    }
}

/// Index of the entry of `d` whose key is the string `key`, or `-1`.
pub open spec fn entry_index(d: Seq<(YamlV, YamlV)>, key: Seq<char>) -> int {
    entry_index_from(d, key, 0)
}

pub proof fn lemma_entry_index_from(d: Seq<(YamlV, YamlV)>, key: Seq<char>, from: int)
    requires
        0 <= from,
    ensures
        entry_index_from(d, key, from) == -1 || (from <= entry_index_from(d, key, from) < d.len()
            && d[entry_index_from(d, key, from)].0 == YamlV::Text(key)),
        forall|k: int| from <= k < d.len() && (k < entry_index_from(d, key, from) || entry_index_from(d, key, from) == -1)
            ==> d[k].0 != YamlV::Text(key),
    decreases d.len() - from,
{
    if from < d.len() && d[from].0 != YamlV::Text(key) {
        lemma_entry_index_from(d, key, from + 1);
    }
}

/// The value that a mapping holds under the string `key`.
pub open spec fn lookup(y: YamlV, key: Seq<char>) -> Option<YamlV> {
    match y {
        YamlV::Dict(d) => {
            let k = entry_index(d, key);
            if k >= 0 {
                Some(d[k].1)
            } else {
                None
            }
        }
        _ => None,
    }
}

/// The text of a scalar as it is compared: a string's text, a number's
/// rendering, `true` or `false`; nothing for anything else.
pub open spec fn scalar_text(v: YamlV) -> Seq<char> {
    match v {
        YamlV::Text(s) => s,
        YamlV::Number(n) => n,
        YamlV::Bool(b) => if b { "true"@ } else { "false"@ },
        _ => Seq::empty(),
    }
}

/// The text of the scalar held under `key` in a mapping; empty where there
/// is no such entry or it holds no scalar.
pub open spec fn field_text(y: YamlV, key: Seq<char>) -> Seq<char> {
    match lookup(y, key) {
        Some(v) => scalar_text(v),
        None => Seq::empty(),
    }
}

/// The entries `d` with the value under the string `key` set to `v`: an
/// existing entry keeps its place and its key; otherwise the entry is added
/// at the end.
pub open spec fn dict_put(d: Seq<(YamlV, YamlV)>, key: Seq<char>, v: YamlV) -> Seq<(YamlV, YamlV)> {
    let k = entry_index(d, key);
    if k >= 0 {
        d.update(k, (d[k].0, v))
    } else {
        d.push((YamlV::Text(key), v))
    }
}

/// Whether `k` is the string `name`.
pub fn is_key(k: &Yaml, name: &str) -> (r: bool)
    ensures
        r == (k@ == YamlV::Text(name@)),
{
    match k {
        Yaml::String(s) => {
            let t = name.to_owned();
            *s == t
        }
        _ => false,
    }
}

/// Position of the entry whose key is the string `key`.
pub fn find_entry(m: &Vec<(Yaml, Yaml)>, key: &str) -> (r: Option<usize>)
    ensures
        r matches Some(k) ==> k == entry_index(dict_view(m@), key@) && k < m@.len(),
        r is None ==> entry_index(dict_view(m@), key@) == -1,
{
    let ghost d = dict_view(m@);
    proof {
        lemma_entry_index_from(d, key@, 0);
    }
    let mut i: usize = 0;
    while i < m.len()
        invariant
            i <= m@.len(),
            d == dict_view(m@),
            forall|k: int| 0 <= k < i ==> d[k].0 != YamlV::Text(key@),
        decreases m@.len() - i,
    {
        if is_key(&m[i].0, key) {
            proof {
                lemma_entry_index_is(d, key@, 0, i as int);
            }
            return Some(i);
        }
        i = i + 1;
    }
    proof {
        lemma_entry_index_is(d, key@, 0, -1);
    }
    None
}

pub proof fn lemma_entry_index_is(d: Seq<(YamlV, YamlV)>, key: Seq<char>, from: int, k: int)
    requires
        0 <= from,
        k == -1 || (from <= k < d.len() && d[k].0 == YamlV::Text(key)),
        forall|t: int| from <= t < d.len() && (t < k || k == -1) ==> d[t].0 != YamlV::Text(key),
    ensures
        entry_index_from(d, key, from) == k,
    decreases d.len() - from,
{
    if from < d.len() && from != k {
        lemma_entry_index_is(d, key, from + 1, k);
    }
}

impl Yaml {
    /// The value held under the string `key`, where `self` is a mapping.
    pub fn get(&self, key: &str) -> (r: Option<&Yaml>)
        ensures
            match r {
                Some(v) => lookup(self@, key@) == Some(v@),
                None => lookup(self@, key@) is None,
            },
    {
        match self {
            Yaml::Mapping(m) => {
                proof {
                    lemma_mapping_view(*m);
                }
                match find_entry(m, key) {
                    Some(k) => Some(&m[k].1),
                    None => None,
                }
            }
            _ => None,
        }
    }

    /// The text of the scalar under `key` (see `field_text`).
    pub fn field(&self, key: &str) -> (r: String)
        ensures
            r@ == field_text(self@, key@),
    {
        match self.get(key) {
            Some(Yaml::String(s)) => s.clone(),
            Some(Yaml::Number(n)) => n.clone(),
            Some(Yaml::Bool(b)) => {
                if *b {
                    "true".to_owned()
                } else {
                    "false".to_owned()
                }
            }
            _ => String::new(),
        }
    }
}

/// Sets the value under the string `key` (see `dict_put`).
pub fn put_entry(m: &mut Vec<(Yaml, Yaml)>, key: &str, value: Yaml)
    ensures
        dict_view(final(m)@) == dict_put(dict_view(old(m)@), key@, value@),
{
    let ghost d = dict_view(m@);
    match find_entry(m, key) {
        Some(k) => {
            let mut entry = (Yaml::Null, Yaml::Null);
            m.set_and_swap(k, &mut entry);
            let key_value = entry.0;
            let ghost kv = key_value@;
            let ghost vv = value@;
            m.set(k, (key_value, value));
            assert(dict_view(m@) =~= d.update(k as int, (kv, vv)));
        }
        None => {
            let ghost vv = value@;
            m.push((Yaml::String(key.to_owned()), value));
            assert(dict_view(m@) =~= d.push((YamlV::Text(key@), vv)));
        }
    }
}


/// After `dict_put`, the key holds the value put.
pub proof fn lemma_lookup_put_same(d: Seq<(YamlV, YamlV)>, key: Seq<char>, v: YamlV)
    ensures
        lookup(YamlV::Dict(dict_put(d, key, v)), key) == Some(v),
{
    lemma_entry_index_from(d, key, 0);
    let k = entry_index(d, key);
    let d2 = dict_put(d, key, v);
    if k >= 0 {
        assert forall|t: int| 0 <= t < d2.len() && t < k implies d2[t].0 != YamlV::Text(key) by {
            assert(d2[t] == d[t]);
        }
        lemma_entry_index_is(d2, key, 0, k);
    } else {
        assert forall|t: int| 0 <= t < d2.len() && t < d.len() implies d2[t].0 != YamlV::Text(key) by {
            assert(d2[t] == d[t]);
        }
        lemma_entry_index_is(d2, key, 0, d.len() as int);
    }
}

/// `dict_put` leaves the other keys' values as they were.
pub proof fn lemma_lookup_put_other(d: Seq<(YamlV, YamlV)>, key: Seq<char>, v: YamlV, other: Seq<char>)
    requires
        other != key,
    ensures
        lookup(YamlV::Dict(dict_put(d, key, v)), other) == lookup(YamlV::Dict(d), other),
{
    lemma_entry_index_from(d, key, 0);
    lemma_entry_index_from(d, other, 0);
    let k = entry_index(d, key);
    let j = entry_index(d, other);
    let d2 = dict_put(d, key, v);
    assert(YamlV::Text(key) != YamlV::Text(other));
    if k >= 0 {
        assert forall|t: int| 0 <= t < d2.len() implies d2[t].0 == d[t].0 by {
            if t == k {
            } else {
                assert(d2[t] == d[t]);
            }
        }
        assert forall|t: int| 0 <= t < d2.len() && (t < j || j == -1) implies d2[t].0 != YamlV::Text(other) by {
            assert(d2[t].0 == d[t].0);
        }
        lemma_entry_index_is(d2, other, 0, j);
        if j >= 0 {
            assert(j != k);
            assert(d2[j] == d[j]);
        }
    } else {
        assert forall|t: int| 0 <= t < d2.len() && (t < j || j == -1) implies d2[t].0 != YamlV::Text(other) by {
            if t < d.len() {
                assert(d2[t] == d[t]);
            } else {
                assert(d2[t].0 == YamlV::Text(key));
            }
        }
        lemma_entry_index_is(d2, other, 0, j);
        if j >= 0 {
            assert(d2[j] == d[j]);
        }
    }
}

} // verus!
