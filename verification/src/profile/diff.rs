//! Line-by-line comparison of a profile's raw and processed configuration.

use vstd::prelude::*;

use crate::text::{chars_of, lines, split_lines, string_of};

verus! {

#[derive(Debug, Clone, Copy, PartialEq, Eq, Structural)]
pub enum DiffKind {
    Added,
    Removed,
    Unchanged,
}

#[derive(Debug, PartialEq)]
pub struct DiffLine {
    pub kind: DiffKind,
    pub content: String,
}

impl View for DiffLine {
    type V = (DiffKind, Seq<char>);

    open spec fn view(&self) -> (DiffKind, Seq<char>) {
        (self.kind, self.content@)
    }
}

/// Offset, from `from`, of the first line of `s` at or after `from` that
/// equals `x` (what `s[from..].iter().position(|l| *l == x)` returns).
pub open spec fn position_from(s: Seq<Seq<char>>, from: int, x: Seq<char>) -> Option<int>
    decreases s.len() - from,
{
    if from < 0 || from >= s.len() {
        None
    } else if s[from] == x {
        Some(0)
    } else {
        match position_from(s, from + 1, x) {
            Some(k) => Some(k + 1),
            None => None,
        }
    }
}

/// How many of `len` items are left from position `at`.
pub open spec fn remaining(len: nat, at: nat) -> nat {
    if at <= len { (len - at) as nat } else { 0 }
}

/// The diff of lines `a[i..]` against `b[j..]`: equal heads are kept; where
/// the heads differ, the side whose head reappears sooner in the other is
/// taken to have gained or lost a line; where neither reappears, the old
/// head is removed and the new head added.
pub open spec fn diff_from(a: Seq<Seq<char>>, b: Seq<Seq<char>>, i: nat, j: nat) -> Seq<(DiffKind, Seq<char>)>
    decreases remaining(a.len(), i) + remaining(b.len(), j),
{
    if i >= a.len() && j >= b.len() {
        Seq::empty()
    } else if i >= a.len() {
        seq![(DiffKind::Added, b[j as int])] + diff_from(a, b, i, j + 1)
    } else if j >= b.len() {
        seq![(DiffKind::Removed, a[i as int])] + diff_from(a, b, i + 1, j)
    } else if a[i as int] == b[j as int] {
        seq![(DiffKind::Unchanged, a[i as int])] + diff_from(a, b, i + 1, j + 1)
    } else {
        let old_ahead = position_from(a, (i + 1) as int, b[j as int]);
        let new_ahead = position_from(b, (j + 1) as int, a[i as int]);
        match (old_ahead, new_ahead) {
            (Some(o), Some(n)) => if o <= n {
                seq![(DiffKind::Removed, a[i as int])] + diff_from(a, b, i + 1, j)
            } else {
                seq![(DiffKind::Added, b[j as int])] + diff_from(a, b, i, j + 1)
            },
            (Some(_), None) => seq![(DiffKind::Removed, a[i as int])] + diff_from(a, b, i + 1, j),
            (None, Some(_)) => seq![(DiffKind::Added, b[j as int])] + diff_from(a, b, i, j + 1),
            (None, None) => seq![(DiffKind::Removed, a[i as int]), (DiffKind::Added, b[j as int])]
                + diff_from(a, b, i + 1, j + 1),
        }
    }
}

/// The diff that `line_diff` computes between the texts `old` and `new`.
pub open spec fn line_diff_spec(old: Seq<char>, new: Seq<char>) -> Seq<(DiffKind, Seq<char>)> {
    diff_from(lines(old), lines(new), 0, 0)
}

/// The lines a diff keeps from the old text: removed and unchanged ones.
pub open spec fn old_side(d: Seq<(DiffKind, Seq<char>)>) -> Seq<Seq<char>>
    decreases d.len(),
{
    if d.len() == 0 {
        Seq::empty()
    } else if d[0].0 == DiffKind::Added {
        old_side(d.drop_first())
    } else {
        seq![d[0].1] + old_side(d.drop_first())
    }
}

/// The lines a diff keeps from the new text: added and unchanged ones.
pub open spec fn new_side(d: Seq<(DiffKind, Seq<char>)>) -> Seq<Seq<char>>
    decreases d.len(),
{
    if d.len() == 0 {
        Seq::empty()
    } else if d[0].0 == DiffKind::Removed {
        new_side(d.drop_first())
    } else {
        seq![d[0].1] + new_side(d.drop_first())
    }
}

proof fn lemma_sides_append(x: Seq<(DiffKind, Seq<char>)>, y: Seq<(DiffKind, Seq<char>)>)
    ensures
        old_side(x + y) == old_side(x) + old_side(y),
        new_side(x + y) == new_side(x) + new_side(y),
    decreases x.len(),
{
    if x.len() == 0 {
        assert(x + y =~= y);
    } else {
        assert((x + y).drop_first() =~= x.drop_first() + y);
        lemma_sides_append(x.drop_first(), y);
    }
}

proof fn lemma_diff_from_sides(a: Seq<Seq<char>>, b: Seq<Seq<char>>, i: nat, j: nat)
    requires
        i <= a.len(),
        j <= b.len(),
    ensures
        old_side(diff_from(a, b, i, j)) == a.skip(i as int),
        new_side(diff_from(a, b, i, j)) == b.skip(j as int),
    decreases (a.len() - i) + (b.len() - j),
{
    let d = diff_from(a, b, i, j);
    if i >= a.len() && j >= b.len() {
        assert(a.skip(i as int) =~= Seq::<Seq<char>>::empty());
        assert(b.skip(j as int) =~= Seq::<Seq<char>>::empty());
    } else {
        let head: Seq<(DiffKind, Seq<char>)>;
        let ni: nat;
        let nj: nat;
        if i >= a.len() {
            head = seq![(DiffKind::Added, b[j as int])];
            ni = i;
            nj = j + 1;
        } else if j >= b.len() {
            head = seq![(DiffKind::Removed, a[i as int])];
            ni = i + 1;
            nj = j;
        } else if a[i as int] == b[j as int] {
            head = seq![(DiffKind::Unchanged, a[i as int])];
            ni = i + 1;
            nj = j + 1;
        } else {
            let old_ahead = position_from(a, (i + 1) as int, b[j as int]);
            let new_ahead = position_from(b, (j + 1) as int, a[i as int]);
            if old_ahead is Some && (new_ahead is None || old_ahead->0 <= new_ahead->0) {
                head = seq![(DiffKind::Removed, a[i as int])];
                ni = i + 1;
                nj = j;
            } else if new_ahead is Some {
                head = seq![(DiffKind::Added, b[j as int])];
                ni = i;
                nj = j + 1;
            } else {
                head = seq![(DiffKind::Removed, a[i as int]), (DiffKind::Added, b[j as int])];
                ni = i + 1;
                nj = j + 1;
            }
        }
        assert(d == head + diff_from(a, b, ni, nj));
        lemma_diff_from_sides(a, b, ni, nj);
        lemma_sides_append(head, diff_from(a, b, ni, nj));
        reveal_with_fuel(old_side, 3);
        reveal_with_fuel(new_side, 3);
        if ni == i + 1 {
            assert(a.skip(i as int) =~= seq![a[i as int]] + a.skip((i + 1) as int));
        }
        if nj == j + 1 {
            assert(b.skip(j as int) =~= seq![b[j as int]] + b.skip((j + 1) as int));
        }
        if ni == i {
            assert(old_side(head) =~= Seq::<Seq<char>>::empty());
        } else {
            assert(old_side(head) =~= seq![a[i as int]]);
        }
        if nj == j {
            assert(new_side(head) =~= Seq::<Seq<char>>::empty());
        } else {
            assert(new_side(head) =~= seq![b[j as int]]);
        }
    }
}

/// A diff loses no line and invents none: the removed and unchanged lines,
/// in order, are the old text's lines, and the added and unchanged lines,
/// in order, are the new text's lines.
pub proof fn lemma_line_diff_reconstructs(old: Seq<char>, new: Seq<char>)
    ensures
        old_side(line_diff_spec(old, new)) == lines(old),
        new_side(line_diff_spec(old, new)) == lines(new),
{
    lemma_diff_from_sides(lines(old), lines(new), 0, 0);
    assert(lines(old).skip(0) =~= lines(old));
    assert(lines(new).skip(0) =~= lines(new));
}

fn chars_eq(a: &Vec<char>, b: &Vec<char>) -> (r: bool)
    ensures
        r == (a@ == b@),
{
    if a.len() != b.len() {
        return false;
    }
    let mut k: usize = 0;
    while k < a.len()
        invariant
            a@.len() == b@.len(),
            k <= a@.len(),
            forall|t: int| 0 <= t < k ==> a@[t] == b@[t],
        decreases a@.len() - k,
    {
        if a[k] != b[k] {
            return false;
        }
        k = k + 1;
    }
    assert(a@ =~= b@);
    true
}

proof fn lemma_position_from_found(s: Seq<Seq<char>>, from: int, x: Seq<char>, k: int)
    requires
        0 <= from <= k < s.len(),
        s[k] == x,
        forall|t: int| from <= t < k ==> s[t] != x,
    ensures
        position_from(s, from, x) == Some(k - from),
    decreases k - from,
{
    if from < k {
        lemma_position_from_found(s, from + 1, x, k);
    }
}

proof fn lemma_position_from_absent(s: Seq<Seq<char>>, from: int, x: Seq<char>)
    requires
        0 <= from,
        forall|t: int| from <= t < s.len() ==> s[t] != x,
    ensures
        position_from(s, from, x) is None,
    decreases s.len() - from,
{
    if from < s.len() {
        lemma_position_from_absent(s, from + 1, x);
    }
}

/// Offset from `from` of the first line equal to `x`.
fn find_from(s: &Vec<Vec<char>>, from: usize, x: &Vec<char>) -> (r: Option<usize>)
    requires
        from <= s@.len(),
    ensures
        r matches Some(k) ==> position_from(s@.map_values(|l: Vec<char>| l@), from as int, x@) == Some(k as int),
        r is None ==> position_from(s@.map_values(|l: Vec<char>| l@), from as int, x@) is None,
{
    let ghost v = s@.map_values(|l: Vec<char>| l@);
    let mut k: usize = from;
    while k < s.len()
        invariant
            from <= k <= s@.len(),
            v == s@.map_values(|l: Vec<char>| l@),
            forall|t: int| from <= t < k ==> v[t] != x@,
        decreases s@.len() - k,
    {
        if chars_eq(&s[k], x) {
            proof {
                lemma_position_from_found(v, from as int, x@, k as int);
            }
            return Some(k - from);
        }
        k = k + 1;
    }
    proof {
        lemma_position_from_absent(v, from as int, x@);
    }
    None
}

fn diff_line(kind: DiffKind, line: &Vec<char>) -> (d: DiffLine)
    ensures
        d@ == (kind, line@),
{
    DiffLine { kind, content: string_of(line.as_slice()) }
}

/// Compares `old` and `new` line by line (see `diff_from`).
pub fn line_diff(old: &str, new: &str) -> (result: Vec<DiffLine>)
    ensures
        result@.map_values(|d: DiffLine| d@) == line_diff_spec(old@, new@),
{
    let old_chars = chars_of(old);
    let new_chars = chars_of(new);
    let old_lines = split_lines(old_chars.as_slice());
    let new_lines = split_lines(new_chars.as_slice());
    let ghost a = old_lines@.map_values(|l: Vec<char>| l@);
    let ghost b = new_lines@.map_values(|l: Vec<char>| l@);

    let mut result: Vec<DiffLine> = Vec::new();
    let mut old_idx: usize = 0;
    let mut new_idx: usize = 0;

    while old_idx < old_lines.len() || new_idx < new_lines.len()
        invariant
            old_idx <= old_lines@.len(),
            new_idx <= new_lines@.len(),
            a == old_lines@.map_values(|l: Vec<char>| l@),
            b == new_lines@.map_values(|l: Vec<char>| l@),
            a == lines(old@),
            b == lines(new@),
            result@.map_values(|d: DiffLine| d@) + diff_from(a, b, old_idx as nat, new_idx as nat)
                == diff_from(a, b, 0, 0),
        decreases (old_lines@.len() - old_idx) + (new_lines@.len() - new_idx),
    {
        let ghost before = result@.map_values(|d: DiffLine| d@);
        let ghost oi = old_idx as nat;
        let ghost nj = new_idx as nat;
        if old_idx >= old_lines.len() {
            result.push(diff_line(DiffKind::Added, &new_lines[new_idx]));
            new_idx = new_idx + 1;
        } else if new_idx >= new_lines.len() {
            result.push(diff_line(DiffKind::Removed, &old_lines[old_idx]));
            old_idx = old_idx + 1;
        } else if chars_eq(&old_lines[old_idx], &new_lines[new_idx]) {
            result.push(diff_line(DiffKind::Unchanged, &old_lines[old_idx]));
            old_idx = old_idx + 1;
            new_idx = new_idx + 1;
        } else {
            let old_ahead = find_from(&old_lines, old_idx + 1, &new_lines[new_idx]);
            let new_ahead = find_from(&new_lines, new_idx + 1, &old_lines[old_idx]);
            match (old_ahead, new_ahead) {
                (Some(o), Some(n)) => {
                    if o <= n {
                        result.push(diff_line(DiffKind::Removed, &old_lines[old_idx]));
                        old_idx = old_idx + 1;
                    } else {
                        result.push(diff_line(DiffKind::Added, &new_lines[new_idx]));
                        new_idx = new_idx + 1;
                    }
                }
                (Some(_), None) => {
                    result.push(diff_line(DiffKind::Removed, &old_lines[old_idx]));
                    old_idx = old_idx + 1;
                }
                (None, Some(_)) => {
                    result.push(diff_line(DiffKind::Added, &new_lines[new_idx]));
                    new_idx = new_idx + 1;
                }
                (None, None) => {
                    result.push(diff_line(DiffKind::Removed, &old_lines[old_idx]));
                    result.push(diff_line(DiffKind::Added, &new_lines[new_idx]));
                    old_idx = old_idx + 1;
                    new_idx = new_idx + 1;
                }
            }
        }
        let ghost after = result@.map_values(|d: DiffLine| d@);
        let ghost added = after.skip(before.len() as int);
        assert(after =~= before + added);
        assert(diff_from(a, b, oi, nj) == added + diff_from(a, b, old_idx as nat, new_idx as nat));
        assert(before + diff_from(a, b, oi, nj) =~= after + diff_from(a, b, old_idx as nat, new_idx as nat));
    }
    assert(diff_from(a, b, old_idx as nat, new_idx as nat) =~= Seq::<(DiffKind, Seq<char>)>::empty());
    assert(result@.map_values(|d: DiffLine| d@) =~= result@.map_values(|d: DiffLine| d@) + Seq::<(DiffKind, Seq<char>)>::empty());
    result
}

/// Lines that the two texts share at the positions being compared are kept,
/// unchanged and in order: where the next `k` lines of both sides are
/// equal, the diff from there starts with those `k` lines marked
/// unchanged.
pub proof fn lemma_diff_keeps_common_lines(a: Seq<Seq<char>>, b: Seq<Seq<char>>, i: nat, j: nat, k: nat)
    requires
        i + k <= a.len(),
        j + k <= b.len(),
        a.subrange(i as int, (i + k) as int) == b.subrange(j as int, (j + k) as int),
    ensures
        diff_from(a, b, i, j).len() >= k,
        forall|t: int| 0 <= t < k ==> #[trigger] diff_from(a, b, i, j)[t] == (DiffKind::Unchanged, a[i + t]),
    decreases k,
{
    if k > 0 {
        assert(a.subrange(i as int, (i + k) as int)[0] == b.subrange(j as int, (j + k) as int)[0]);
        assert(a.subrange((i + 1) as int, (i + k) as int) =~= a.subrange(i as int, (i + k) as int).subrange(1, k as int));
        assert(b.subrange((j + 1) as int, (j + k) as int) =~= b.subrange(j as int, (j + k) as int).subrange(1, k as int));
        lemma_diff_keeps_common_lines(a, b, i + 1, j + 1, (k - 1) as nat);
        let rest = diff_from(a, b, i + 1, j + 1);
        assert(diff_from(a, b, i, j) == seq![(DiffKind::Unchanged, a[i as int])] + rest);
        assert forall|t: int| 0 <= t < k implies #[trigger] diff_from(a, b, i, j)[t] == (DiffKind::Unchanged, a[i + t]) by {
            if t > 0 {
                assert(diff_from(a, b, i, j)[t] == rest[t - 1]);
                assert(a[(i + 1) + (t - 1)] == a[i + t]);
            }
        }
    }
}

proof fn lemma_diff_self_from(a: Seq<Seq<char>>, i: nat)
    requires
        i <= a.len(),
    ensures
        diff_from(a, a, i, i) == a.skip(i as int).map_values(|l: Seq<char>| (DiffKind::Unchanged, l)),
    decreases a.len() - i,
{
    let f = |l: Seq<char>| (DiffKind::Unchanged, l);
    if i < a.len() {
        lemma_diff_self_from(a, i + 1);
        assert(a.skip(i as int).map_values(f) =~= seq![f(a[i as int])] + a.skip((i + 1) as int).map_values(f));
    } else {
        assert(a.skip(i as int).map_values(f) =~= Seq::<(DiffKind, Seq<char>)>::empty());
    }
}

/// The diff of a text with itself reports every line as unchanged: one
/// entry per line, in order, and nothing added or removed.
pub proof fn lemma_line_diff_self(text: Seq<char>)
    ensures
        line_diff_spec(text, text) == lines(text).map_values(|l: Seq<char>| (DiffKind::Unchanged, l)),
        line_diff_spec(text, text).len() == lines(text).len(),
        forall|t: int| 0 <= t < lines(text).len() ==> #[trigger] line_diff_spec(text, text)[t] == (DiffKind::Unchanged, lines(text)[t]),
{
    let a = lines(text);
    lemma_diff_self_from(a, 0);
    assert(a.skip(0) =~= a);
}

/// Where the two texts begin with the same `k` lines, their diff begins
/// with those lines, unchanged.
pub proof fn lemma_line_diff_common_start(old: Seq<char>, new: Seq<char>, k: nat)
    requires
        k <= lines(old).len(),
        k <= lines(new).len(),
        lines(old).take(k as int) == lines(new).take(k as int),
    ensures
        line_diff_spec(old, new).len() >= k,
        forall|t: int| 0 <= t < k ==> #[trigger] line_diff_spec(old, new)[t] == (DiffKind::Unchanged, lines(old)[t]),
{
    let a = lines(old);
    let b = lines(new);
    assert(a.subrange(0, k as int) =~= a.take(k as int));
    assert(b.subrange(0, k as int) =~= b.take(k as int));
    lemma_diff_keeps_common_lines(a, b, 0, 0, k);
    assert forall|t: int| 0 <= t < k implies #[trigger] line_diff_spec(old, new)[t] == (DiffKind::Unchanged, a[t]) by {
        assert(diff_from(a, b, 0, 0)[t] == (DiffKind::Unchanged, a[0 + t]));
    }
}

} // verus!
