//! Showing part of a profile's configuration: the value at a dotted path.

use vstd::prelude::*;

use crate::text::{chars_of, parse_unsigned, parse_usize, split_char, split_on, strings_view};
use crate::yaml::{group_yaml_view, list_view, lookup, Yaml, YamlV};

verus! {

broadcast use group_yaml_view;

/// The value reached from `v` by following `segments`: in a mapping a
/// segment is a key, in a sequence an index.
pub open spec fn navigate(v: YamlV, segments: Seq<Seq<char>>) -> Option<YamlV>
    decreases segments.len(),
{
    if segments.len() == 0 {
        Some(v)
    } else {
        let seg = segments[0];
        let next = match v {
            YamlV::Dict(_) => lookup(v, seg),
            YamlV::List(items) => match parse_unsigned(seg, usize::MAX as nat) {
                Some(i) => if i < items.len() {
                    Some(items[i as int])
                } else {
                    None
                },
                None => None,
            },
            _ => None,
        };
        match next {
            Some(n) => navigate(n, segments.drop_first()),
            None => None,
        }
    }
}

/// The value at `path` in `value`: the path's segments are separated by
/// `.`, and an empty path names the key `""`.
pub fn navigate_path<'a>(value: &'a Yaml, path: &str) -> (r: Option<&'a Yaml>)
    ensures
        match r {
            Some(y) => navigate(value@, split_on(path@, '.')) == Some(y@),
            None => navigate(value@, split_on(path@, '.')) is None,
        },
{
    let segments = split_char(path, '.');
    let ghost segs = strings_view(segments@);
    let mut current: &'a Yaml = value;
    let mut i: usize = 0;
    assert(segs.skip(0) =~= segs);
    while i < segments.len()
        invariant
            i <= segments@.len(),
            segs == strings_view(segments@),
            segs == split_on(path@, '.'),
            navigate(value@, segs) == navigate(current@, segs.skip(i as int)),
        decreases segments@.len() - i,
    {
        let seg = segments[i].as_str();
        assert(segs.skip(i as int)[0] == seg@);
        assert(segs.skip(i as int).drop_first() =~= segs.skip(i + 1));
        let next: Option<&'a Yaml> = match current {
            Yaml::Mapping(_) => current.get(seg),
            Yaml::Sequence(items) => {
                let digits = chars_of(seg);
                match parse_usize(digits.as_slice()) {
                    Some(k) => {
                        if k < items.len() {
                            assert(list_view(items@)[k as int] == items@[k as int]@);
                            Some(&items[k])
                        } else {
                            None
                        }
                    }
                    None => None,
                }
            }
            _ => None,
        };
        match next {
            Some(n) => {
                current = n;
            }
            None => {
                return None;
            }
        }
        i = i + 1;
    }
    assert(segs.skip(i as int) =~= Seq::<Seq<char>>::empty());
    Some(current)
}

} // verus!
