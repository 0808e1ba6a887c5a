//! YAML values as plain data, and the deep merge that lays one layer of a
//! configuration file over another.
use vstd::prelude::*;

use crate::json::JsonNumber;
use crate::text::{chars_eq, chars_of};

verus! {

/// A YAML value: null, a boolean, a number, a string, a sequence, a
/// mapping (its entries in order, keys unique), or a tagged value
/// (`!Tag value`, the tag without its `!`).
#[derive(Debug)]
pub enum Yaml {
    Null,
    Bool(bool),
    Number(JsonNumber),
    String(String),
    Sequence(Vec<Yaml>),
    Mapping(Vec<(Yaml, Yaml)>),
    Tagged(String, Box<Yaml>),
}

/// A number as plain data.
pub enum NumberValue {
    PosInt(u64),
    NegInt(i64),
    Float(Seq<char>),
}

/// A YAML value as plain data.
pub enum YamlValue {
    Null,
    Bool(bool),
    Number(NumberValue),
    String(Seq<char>),
    Sequence(Seq<YamlValue>),
    Mapping(Seq<(YamlValue, YamlValue)>),
    Tagged(Seq<char>, Box<YamlValue>),
}

/// A number as plain data.
pub open spec fn number_value(n: JsonNumber) -> NumberValue {
    match n {
        JsonNumber::PosInt(u) => NumberValue::PosInt(u),
        JsonNumber::NegInt(i) => NumberValue::NegInt(i),
        JsonNumber::Float(t) => NumberValue::Float(t@),
    }
}

/// A YAML value as plain data.
pub open spec fn yaml_value(y: Yaml) -> YamlValue
    decreases y,
{
    match y {
        Yaml::Null => YamlValue::Null,
        Yaml::Bool(b) => YamlValue::Bool(b),
        Yaml::Number(n) => YamlValue::Number(number_value(n)),
        Yaml::String(s) => YamlValue::String(s@),
        Yaml::Sequence(v) => YamlValue::Sequence(items_value(v@)),
        Yaml::Mapping(m) => YamlValue::Mapping(pairs_value(m@)),
        Yaml::Tagged(t, b) => YamlValue::Tagged(t@, Box::new(yaml_value(*b))),
    }
}

/// The items of a sequence as plain data.
pub open spec fn items_value(s: Seq<Yaml>) -> Seq<YamlValue>
    decreases s,
{
    if s.len() == 0 {
        Seq::empty()
    } else {
        items_value(s.subrange(0, s.len() - 1)).push(yaml_value(s[s.len() - 1]))
    }
}

/// The entries of a mapping as plain data.
pub open spec fn pairs_value(s: Seq<(Yaml, Yaml)>) -> Seq<(YamlValue, YamlValue)>
    decreases s,
{
    if s.len() == 0 {
        Seq::empty()
    } else {
        pairs_value(s.subrange(0, s.len() - 1)).push(
            (yaml_value(s[s.len() - 1].0), yaml_value(s[s.len() - 1].1)),
        )
    }
}

proof fn lemma_items_value(s: Seq<Yaml>)
    ensures
        items_value(s).len() == s.len(),
        forall|i: int| 0 <= i < s.len() ==> #[trigger] items_value(s)[i] == yaml_value(s[i]),
    decreases s.len(),
{
    if s.len() > 0 {
        let p = s.subrange(0, s.len() - 1);
        lemma_items_value(p);
        assert forall|i: int| 0 <= i < s.len() implies #[trigger] items_value(s)[i] == yaml_value(
            s[i],
        ) by {
            if i < s.len() - 1 {
                assert(p[i] == s[i]);
            }
        }
    }
}

proof fn lemma_pairs_value(s: Seq<(Yaml, Yaml)>)
    ensures
        pairs_value(s).len() == s.len(),
        forall|i: int|
            0 <= i < s.len() ==> #[trigger] pairs_value(s)[i] == (yaml_value(s[i].0), yaml_value(
                s[i].1,
            )),
    decreases s.len(),
{
    if s.len() > 0 {
        let p = s.subrange(0, s.len() - 1);
        lemma_pairs_value(p);
        assert forall|i: int| 0 <= i < s.len() implies #[trigger] pairs_value(s)[i] == (
            yaml_value(s[i].0),
            yaml_value(s[i].1),
        ) by {
            if i < s.len() - 1 {
                assert(p[i] == s[i]);
            }
        }
    }
}

// ─── Equality ────────────────────────────────────────────────────────────────

fn number_eq(a: &JsonNumber, b: &JsonNumber) -> (r: bool)
    ensures
        r == (number_value(*a) == number_value(*b)),
{
    match (a, b) {
        (JsonNumber::PosInt(x), JsonNumber::PosInt(y)) => *x == *y,
        (JsonNumber::NegInt(x), JsonNumber::NegInt(y)) => *x == *y,
        (JsonNumber::Float(x), JsonNumber::Float(y)) => chars_eq(&chars_of(x.as_str()), &chars_of(y.as_str())),
        _ => false,
    }
}

fn text_eq(a: &String, b: &String) -> (r: bool)
    ensures
        r == (a@ == b@),
{
    chars_eq(&chars_of(a.as_str()), &chars_of(b.as_str()))
}

/// Whether two YAML values are the same.
pub fn yaml_eq(a: &Yaml, b: &Yaml) -> (r: bool)
    ensures
        r == (yaml_value(*a) == yaml_value(*b)),
    decreases a,
{
    match (a, b) {
        (Yaml::Null, Yaml::Null) => true,
        (Yaml::Bool(x), Yaml::Bool(y)) => *x == *y,
        (Yaml::Number(x), Yaml::Number(y)) => number_eq(x, y),
        (Yaml::String(x), Yaml::String(y)) => text_eq(x, y),
        (Yaml::Sequence(x), Yaml::Sequence(y)) => {
            proof {
                lemma_items_value(x@);
                lemma_items_value(y@);
            }
            if x.len() != y.len() {
                return false;
            }
            let mut i: usize = 0;
            while i < x.len()
                invariant
                    i <= x.len() == y.len(),
                    *a == Yaml::Sequence(*x),
                    *b == Yaml::Sequence(*y),
                    items_value(x@).len() == x.len(),
                    items_value(y@).len() == y.len(),
                    forall|j: int| 0 <= j < x.len() ==> #[trigger] items_value(x@)[j] == yaml_value(x@[j]),
                    forall|j: int| 0 <= j < y.len() ==> #[trigger] items_value(y@)[j] == yaml_value(y@[j]),
                    forall|j: int| 0 <= j < i ==> items_value(x@)[j] == items_value(y@)[j],
                decreases x.len() - i,
            {
                assert(decreases_to!(*a => x@[i as int]));
                if !yaml_eq(&x[i], &y[i]) {
                    assert(items_value(x@)[i as int] != items_value(y@)[i as int]);
                    assert(items_value(x@) != items_value(y@));
                    return false;
                }
                i = i + 1;
            }
            assert(items_value(x@) =~= items_value(y@));
            true
        },
        (Yaml::Mapping(x), Yaml::Mapping(y)) => {
            proof {
                lemma_pairs_value(x@);
                lemma_pairs_value(y@);
            }
            if x.len() != y.len() {
                return false;
            }
            let mut i: usize = 0;
            while i < x.len()
                invariant
                    i <= x.len() == y.len(),
                    *a == Yaml::Mapping(*x),
                    *b == Yaml::Mapping(*y),
                    pairs_value(x@).len() == x.len(),
                    pairs_value(y@).len() == y.len(),
                    forall|j: int|
                        0 <= j < x.len() ==> #[trigger] pairs_value(x@)[j] == (yaml_value(x@[j].0), yaml_value(x@[j].1)),
                    forall|j: int|
                        0 <= j < y.len() ==> #[trigger] pairs_value(y@)[j] == (yaml_value(y@[j].0), yaml_value(y@[j].1)),
                    forall|j: int| 0 <= j < i ==> pairs_value(x@)[j] == pairs_value(y@)[j],
                decreases x.len() - i,
            {
                assert(decreases_to!(*a => x@[i as int].0));
                assert(decreases_to!(*a => x@[i as int].1));
                if !yaml_eq(&x[i].0, &y[i].0) || !yaml_eq(&x[i].1, &y[i].1) {
                    assert(pairs_value(x@)[i as int] != pairs_value(y@)[i as int]);
                    assert(pairs_value(x@) != pairs_value(y@));
                    return false;
                }
                i = i + 1;
            }
            assert(pairs_value(x@) =~= pairs_value(y@));
            true
        },
        (Yaml::Tagged(t, x), Yaml::Tagged(u, y)) => {
            text_eq(t, u) && yaml_eq(&**x, &**y)
        },
        _ => false,
    }
}


// ─── Deep merge ──────────────────────────────────────────────────────────────

/// The first index at or after `i` whose key is `k` (`s.len()` when none).
pub open spec fn key_position(s: Seq<(YamlValue, YamlValue)>, k: YamlValue, i: int) -> int
    decreases s.len() - i,
{
    if 0 <= i < s.len() && s[i].0 != k {
        key_position(s, k, i + 1)
    } else {
        i
    }
}

/// `overlay` laid over `base`: two mappings are merged key by key; a null
/// overlay keeps the base; any other overlay replaces it.
pub open spec fn merged_value(base: YamlValue, overlay: YamlValue) -> YamlValue
    decreases overlay,
{
    match overlay {
        YamlValue::Mapping(om) => match base {
            YamlValue::Mapping(bm) => YamlValue::Mapping(merged_pairs(bm, om)),
            _ => overlay,
        },
        YamlValue::Null => base,
        _ => overlay,
    }
}

/// The entries of `bm` after each entry of `om`, in order, is laid on
/// them: where a key is already there, that entry is taken out (the last
/// entry moving into its place) and the key goes to the end with the two
/// values merged; a new key goes to the end with its value.
pub open spec fn merged_pairs(bm: Seq<(YamlValue, YamlValue)>, om: Seq<(YamlValue, YamlValue)>) -> Seq<
    (YamlValue, YamlValue),
>
    decreases om,
{
    if om.len() == 0 {
        bm
    } else {
        let acc = merged_pairs(bm, om.subrange(0, om.len() - 1));
        let k = om[om.len() - 1].0;
        let i = key_position(acc, k, 0);
        if 0 <= i < acc.len() {
            acc.update(i, acc.last()).drop_last().push(
                (k, merged_value(acc[i].1, om[om.len() - 1].1)),
            )
        } else {
            acc.push((k, om[om.len() - 1].1))
        }
    }
}

proof fn lemma_key_position(s: Seq<(YamlValue, YamlValue)>, k: YamlValue, i: int)
    requires
        0 <= i <= s.len(),
    ensures
        i <= key_position(s, k, i) <= s.len(),
        key_position(s, k, i) < s.len() ==> s[key_position(s, k, i)].0 == k,
        forall|m: int| i <= m < key_position(s, k, i) ==> s[m].0 != k,
    decreases s.len() - i,
{
    if i < s.len() && s[i].0 != k {
        lemma_key_position(s, k, i + 1);
    }
}

fn find_pair(m: &Vec<(Yaml, Yaml)>, k: &Yaml) -> (r: usize)
    ensures
        r == key_position(pairs_value(m@), yaml_value(*k), 0),
{
    proof {
        lemma_pairs_value(m@);
        lemma_key_position(pairs_value(m@), yaml_value(*k), 0);
    }
    let mut i: usize = 0;
    while i < m.len()
        invariant
            i <= m.len(),
            pairs_value(m@).len() == m.len(),
            forall|j: int|
                0 <= j < m.len() ==> #[trigger] pairs_value(m@)[j] == (yaml_value(m@[j].0), yaml_value(m@[j].1)),
            key_position(pairs_value(m@), yaml_value(*k), 0) == key_position(
                pairs_value(m@),
                yaml_value(*k),
                i as int,
            ),
        decreases m.len() - i,
    {
        assert(pairs_value(m@)[i as int].0 == yaml_value(m@[i as int].0));
        if yaml_eq(&m[i].0, k) {
            return i;
        }
        i = i + 1;
    }
    i
}

/// Lays the YAML value `overlay` over `base`: mappings are merged key by
/// key, recursively; a null overlay keeps `base`; any other overlay
/// (a scalar or a sequence) replaces it.
pub fn deep_merge_yaml(base: Yaml, overlay: Yaml) -> (r: Yaml)
    ensures
        yaml_value(r) == merged_value(yaml_value(base), yaml_value(overlay)),
    decreases overlay,
{
    match overlay {
        Yaml::Mapping(om) => match base {
            Yaml::Mapping(bm) => Yaml::Mapping(merge_mappings(bm, om)),
            _ => Yaml::Mapping(om),
        },
        Yaml::Null => base,
        other => other,
    }
}

/// The entries of the mapping `bm` with those of `om` laid on them, one
/// after the other.
fn merge_mappings(bm: Vec<(Yaml, Yaml)>, om: Vec<(Yaml, Yaml)>) -> (r: Vec<(Yaml, Yaml)>)
    ensures
        pairs_value(r@) == merged_pairs(pairs_value(bm@), pairs_value(om@)),
    decreases om,
{
    let ghost orig = om@;
    let ghost pb = pairs_value(bm@);
    let mut acc = bm;
    let mut rest = om;
    let mut j: usize = 0;
    proof {
        lemma_pairs_value(orig);
        assert(orig.len() == om.len());
        assert(orig.take(0) =~= Seq::<(Yaml, Yaml)>::empty());
        assert(rest@ =~= orig.skip(0));
    }
    while rest.len() > 0
        invariant
            j <= orig.len(),
            rest@ == orig.skip(j as int),
            pairs_value(acc@) == merged_pairs(pb, pairs_value(orig.take(j as int))),
            orig == om@,
            orig.len() <= usize::MAX,
        decreases rest.len(),
    {
        let ghost before = acc@;
        let (k, ov) = rest.remove(0);
        proof {
            assert(orig[j as int] == (k, ov));
            assert(orig.take(j as int + 1).subrange(0, j as int) =~= orig.take(j as int));
            assert(orig.take(j as int + 1)[j as int] == orig[j as int]);
            assert(rest@ =~= orig.skip(j as int + 1));
            lemma_pairs_value(before);
            lemma_pairs_value(orig.take(j as int + 1));
            assert(pairs_value(orig.take(j as int + 1)).subrange(0, j as int) =~= pairs_value(
                orig.take(j as int),
            ));
            lemma_key_position(pairs_value(before), yaml_value(k), 0);
            assert(decreases_to!(om => om@[j as int].1));
        }
        let i = find_pair(&acc, &k);
        if i < acc.len() {
            let (_, bv) = acc.swap_remove(i);
            let ghost mid = acc@;
            proof {
                let pv = pairs_value(before);
                lemma_pairs_value(mid);
                assert(pairs_value(mid) =~= pv.update(i as int, pv.last()).drop_last());
                assert(yaml_value(bv) == pv[i as int].1);
            }
            let m = deep_merge_yaml(bv, ov);
            acc.push((k, m));
            proof {
                lemma_pairs_value(acc@);
                assert(pairs_value(acc@) =~= pairs_value(mid).push((yaml_value(k), yaml_value(m))));
            }
        } else {
            acc.push((k, ov));
            proof {
                lemma_pairs_value(acc@);
                assert(pairs_value(acc@) =~= pairs_value(before).push((yaml_value(k), yaml_value(ov))));
            }
        }
        j = j + 1;
    }
    assert(orig.take(orig.len() as int) =~= orig);
    acc
}


/// `base` with each layer laid over it in turn.
pub open spec fn merged_layers(base: YamlValue, layers: Seq<YamlValue>) -> YamlValue
    decreases layers.len(),
{
    if layers.len() == 0 {
        base
    } else {
        merged_value(merged_layers(base, layers.drop_last()), layers.last())
    }
}

/// Lays each layer over `base` in turn, later layers winning.
pub fn merge_layers(base: Yaml, layers: Vec<Yaml>) -> (r: Yaml)
    ensures
        yaml_value(r) == merged_layers(yaml_value(base), items_value(layers@)),
{
    let ghost orig = layers@;
    proof {
        lemma_items_value(orig);
    }
    let mut acc = base;
    let ghost b = yaml_value(acc);
    let mut rest = layers;
    let mut j: usize = 0;
    assert(orig.len() == rest.len());
    assert(items_value(orig).take(0) =~= Seq::<YamlValue>::empty());
    while rest.len() > 0
        invariant
            j <= orig.len(),
            orig.len() == items_value(orig).len(),
            forall|i: int| 0 <= i < orig.len() ==> #[trigger] items_value(orig)[i] == yaml_value(orig[i]),
            rest@ == orig.skip(j as int),
            orig.len() <= usize::MAX,
            yaml_value(acc) == merged_layers(b, items_value(orig).take(j as int)),
        decreases rest.len(),
    {
        let layer = rest.remove(0);
        proof {
            assert(orig[j as int] == layer);
            assert(items_value(orig).take(j as int + 1).drop_last() =~= items_value(orig).take(j as int));
            assert(rest@ =~= orig.skip(j as int + 1));
        }
        acc = deep_merge_yaml(acc, layer);
        j = j + 1;
    }
    assert(items_value(orig).take(orig.len() as int) =~= items_value(orig));
    acc
}

// ─── What a merge gives ──────────────────────────────────────────────────────

/// No key occurs twice.
pub open spec fn unique_keys(s: Seq<(YamlValue, YamlValue)>) -> bool {
    forall|i: int, j: int| 0 <= i < j < s.len() ==> s[i].0 != s[j].0
}

/// The value under key `k`, if the key occurs.
pub open spec fn value_of(s: Seq<(YamlValue, YamlValue)>, k: YamlValue) -> Option<YamlValue> {
    let i = key_position(s, k, 0);
    if i < s.len() {
        Some(s[i].1)
    } else {
        None
    }
}

proof fn lemma_position_of(s: Seq<(YamlValue, YamlValue)>, k: YamlValue, j: int)
    requires
        unique_keys(s),
        0 <= j <= s.len(),
        j < s.len() ==> s[j].0 == k,
        j == s.len() ==> forall|m: int| 0 <= m < s.len() ==> s[m].0 != k,
    ensures
        key_position(s, k, 0) == j,
{
    lemma_key_position(s, k, 0);
}

/// A null overlay leaves the base as it is.
pub proof fn lemma_null_overlay_keeps_base(base: YamlValue)
    ensures
        merged_value(base, YamlValue::Null) == base,
{
}

/// An overlay that is neither a mapping nor null replaces the base; so
/// does a mapping laid over anything but a mapping.
pub proof fn lemma_overlay_replaces(base: YamlValue, overlay: YamlValue)
    requires
        !(overlay is Null),
        !(overlay is Mapping && base is Mapping),
    ensures
        merged_value(base, overlay) == overlay,
{
}

/// Laying two mappings with unique keys over each other gives a mapping
/// with unique keys in which every key of the overlay holds the merge of
/// its two values (or its overlay value when the base lacks it), and every
/// other key of the base keeps its value.
pub proof fn lemma_merged_pairs(bm: Seq<(YamlValue, YamlValue)>, om: Seq<(YamlValue, YamlValue)>)
    requires
        unique_keys(bm),
        unique_keys(om),
    ensures
        unique_keys(merged_pairs(bm, om)),
        forall|k: YamlValue|
            #[trigger] value_of(merged_pairs(bm, om), k) == match (value_of(bm, k), value_of(om, k)) {
                (Some(b), Some(o)) => Some(merged_value(b, o)),
                (Some(b), None) => Some(b),
                (None, o) => o,
            },
    decreases om.len(),
{
    if om.len() > 0 {
        let om1 = om.subrange(0, om.len() - 1);
        assert(unique_keys(om1)) by {
            assert forall|i: int, j: int| 0 <= i < j < om1.len() implies om1[i].0 != om1[j].0 by {
                assert(om1[i] == om[i] && om1[j] == om[j]);
            }
        }
        lemma_merged_pairs(bm, om1);
        let acc = merged_pairs(bm, om1);
        let k0 = om[om.len() - 1].0;
        let v0 = om[om.len() - 1].1;
        let r = merged_pairs(bm, om);
        lemma_key_position(acc, k0, 0);
        let i = key_position(acc, k0, 0);
        // The last key of the overlay is not among the earlier ones.
        assert forall|m: int| 0 <= m < om1.len() implies om1[m].0 != k0 by {
            assert(om1[m] == om[m]);
        }
        lemma_position_of(om1, k0, om1.len() as int);
        assert forall|k: YamlValue| #[trigger] value_of(om, k) == if k == k0 {
            Some(v0)
        } else {
            value_of(om1, k)
        } by {
            lemma_key_position(om1, k, 0);
            let p = key_position(om1, k, 0);
            if k == k0 {
                lemma_position_of(om, k, om.len() - 1);
            } else if p < om1.len() {
                assert(om[p] == om1[p]);
                lemma_position_of(om, k, p);
            } else {
                assert forall|m: int| 0 <= m < om.len() implies om[m].0 != k by {
                    if m < om1.len() {
                        assert(om[m] == om1[m]);
                    }
                }
                lemma_position_of(om, k, om.len() as int);
            }
        }
        if i < acc.len() {
            let last = acc.last();
            let mv = merged_value(acc[i].1, v0);
            let mid = acc.update(i, last).drop_last();
            assert(r == mid.push((k0, mv)));
            // Where each key of `acc` other than `k0` ends up in `r`.
            assert forall|a: int, b: int| 0 <= a < b < r.len() implies r[a].0 != r[b].0 by {
                let n = acc.len() - 1;
                let src_a = if a == i && i < n { n } else { a };
                if b == n {
                    assert(r[b].0 == k0);
                    assert(r[a].0 == acc[src_a].0);
                    assert(src_a != i);
                } else {
                    let src_b = if b == i { n } else { b };
                    assert(r[a].0 == acc[src_a].0);
                    assert(r[b].0 == acc[src_b].0);
                    assert(src_a != src_b);
                }
            }
            assert forall|k: YamlValue| #[trigger] value_of(r, k) == match (value_of(bm, k), value_of(om, k)) {
                (Some(b), Some(o)) => Some(merged_value(b, o)),
                (Some(b), None) => Some(b),
                (None, o) => o,
            } by {
                let n = acc.len() - 1;
                if k == k0 {
                    lemma_position_of(r, k, r.len() - 1);
                    assert(value_of(om1, k0) is None);
                    assert(value_of(acc, k0) == Some(acc[i].1));
                } else {
                    lemma_key_position(acc, k, 0);
                    let p = key_position(acc, k, 0);
                    if p < acc.len() {
                        let q = if p == n { i } else { p };
                        assert(p != i);
                        assert(r[q] == acc[p]);
                        lemma_position_of(r, k, q);
                        assert(value_of(acc, k) == Some(acc[p].1));
                    } else {
                        assert(value_of(acc, k) is None);
                        assert forall|m: int| 0 <= m < r.len() implies r[m].0 != k by {
                            if m < n {
                                if m == i {
                                    assert(r[m] == acc[n]);
                                } else {
                                    assert(r[m] == acc[m]);
                                }
                            }
                        }
                        lemma_position_of(r, k, r.len() as int);
                    }
                }
            }
        } else {
            assert(r == acc.push((k0, v0)));
            assert forall|a: int, b: int| 0 <= a < b < r.len() implies r[a].0 != r[b].0 by {
                if b < acc.len() {
                    assert(r[a] == acc[a] && r[b] == acc[b]);
                } else {
                    assert(r[a] == acc[a]);
                }
            }
            assert forall|k: YamlValue| #[trigger] value_of(r, k) == match (value_of(bm, k), value_of(om, k)) {
                (Some(b), Some(o)) => Some(merged_value(b, o)),
                (Some(b), None) => Some(b),
                (None, o) => o,
            } by {
                if k == k0 {
                    lemma_position_of(r, k, acc.len() as int);
                    assert(value_of(acc, k0) is None);
                } else {
                    lemma_key_position(acc, k, 0);
                    let p = key_position(acc, k, 0);
                    if p < acc.len() {
                        assert(r[p] == acc[p]);
                        lemma_position_of(r, k, p);
                        assert(value_of(acc, k) == Some(acc[p].1));
                    } else {
                        assert(value_of(acc, k) is None);
                        assert forall|m: int| 0 <= m < r.len() implies r[m].0 != k by {
                            if m < acc.len() {
                                assert(r[m] == acc[m]);
                            }
                        }
                        lemma_position_of(r, k, r.len() as int);
                    }
                }
            }
        }
    } else {
        assert forall|k: YamlValue| #[trigger] value_of(om, k) is None by {
            lemma_key_position(om, k, 0);
        }
    }
}

} // verus!
