//! Layering configurations: a later layer overrides an earlier one field by
//! field, and the maps of the two layers are merged key by key.
use vstd::prelude::*;

use crate::assoc::{find_key, key_index_from, lemma_key_index_from, unique_names};
use crate::config::{Config, StatusOverride, WebhookConfig};
use crate::error::NotifyError;
use crate::text::owned;
use crate::types::Priority;

verus! {

// ─── Maps as sequences of named values ──────────────────────────────────────

/// Index of the first entry at or after `i` named `k` (`m.len()` when none).
pub open spec fn vkey_index_from<W>(m: Seq<(Seq<char>, W)>, k: Seq<char>, i: int) -> int
    decreases m.len() - i,
{
    if 0 <= i < m.len() && m[i].0 != k {
        vkey_index_from(m, k, i + 1)
    } else {
        i
    }
}

/// The value of the first entry named `k`.
pub open spec fn vlookup<W>(m: Seq<(Seq<char>, W)>, k: Seq<char>) -> Option<W> {
    let i = vkey_index_from(m, k, 0);
    if 0 <= i < m.len() {
        Some(m[i].1)
    } else {
        None
    }
}

/// The entries of `over` whose names `base` lacks, in order.
pub open spec fn new_entries<W>(base: Seq<(Seq<char>, W)>, over: Seq<(Seq<char>, W)>) -> Seq<
    (Seq<char>, W),
>
    decreases over.len(),
{
    if over.len() == 0 {
        Seq::empty()
    } else {
        let r = new_entries(base, over.drop_last());
        if vlookup(base, over.last().0) is Some {
            r
        } else {
            r.push(over.last())
        }
    }
}

/// One entry of `base` after the overlay: its value combined with the
/// overlay's value under the same name, if there is one.
pub open spec fn overlaid_entry<W>(
    e: (Seq<char>, W),
    over: Seq<(Seq<char>, W)>,
    comb: spec_fn(W, W) -> W,
) -> (Seq<char>, W) {
    match vlookup(over, e.0) {
        Some(o) => (e.0, comb(e.1, o)),
        None => e,
    }
}

/// `base` with `over` laid on top: the entries of `base` in order, each
/// combined with the overlay's entry of the same name, then the overlay's
/// entries under new names.
pub open spec fn overlay_map<W>(
    base: Seq<(Seq<char>, W)>,
    over: Seq<(Seq<char>, W)>,
    comb: spec_fn(W, W) -> W,
) -> Seq<(Seq<char>, W)> {
    base.map_values(|e: (Seq<char>, W)| overlaid_entry(e, over, comb)) + new_entries(base, over)
}

pub proof fn lemma_vkey_index_from<W>(m: Seq<(Seq<char>, W)>, k: Seq<char>, i: int)
    requires
        0 <= i <= m.len(),
    ensures
        i <= vkey_index_from(m, k, i) <= m.len(),
        vkey_index_from(m, k, i) < m.len() ==> m[vkey_index_from(m, k, i)].0 == k,
        forall|j: int| i <= j < vkey_index_from(m, k, i) ==> m[j].0 != k,
    decreases m.len() - i,
{
    if i < m.len() && m[i].0 != k {
        lemma_vkey_index_from(m, k, i + 1);
    }
}

/// The first index named `k` in a sequence is the one where the name
/// occurs and no earlier entry has it.
pub proof fn lemma_first_index<W>(m: Seq<(Seq<char>, W)>, k: Seq<char>, i: int)
    requires
        0 <= i <= m.len(),
        i < m.len() ==> m[i].0 == k,
        forall|j: int| 0 <= j < i ==> m[j].0 != k,
    ensures
        vkey_index_from(m, k, 0) == i,
{
    lemma_vkey_index_from(m, k, 0);
}

proof fn lemma_new_entries<W>(base: Seq<(Seq<char>, W)>, over: Seq<(Seq<char>, W)>, k: Seq<char>)
    requires
        vlookup(base, k) is None,
    ensures
        vlookup(new_entries(base, over), k) == vlookup(over, k),
    decreases over.len(),
{
    if over.len() > 0 {
        let o = over.drop_last();
        let last = over.last();
        lemma_new_entries(base, o, k);
        let r = new_entries(base, o);
        let n = new_entries(base, over);
        lemma_vkey_index_from(r, k, 0);
        lemma_vkey_index_from(o, k, 0);
        let ir = vkey_index_from(r, k, 0);
        let io = vkey_index_from(o, k, 0);
        assert forall|j: int| 0 <= j < o.len() implies #[trigger] over[j] == o[j] by {}
        if vlookup(base, last.0) is None {
            assert(n == r.push(last));
            assert forall|j: int| 0 <= j < r.len() implies #[trigger] n[j] == r[j] by {}
        } else {
            assert(n == r);
        }
        if io < o.len() {
            lemma_first_index(over, k, io);
            lemma_first_index(n, k, ir);
        } else if last.0 == k {
            lemma_first_index(over, k, o.len() as int);
            lemma_first_index(n, k, r.len() as int);
        } else {
            lemma_first_index(over, k, over.len() as int);
            lemma_first_index(n, k, n.len() as int);
        }
    }
}

/// What the layered map holds under a name: the combination of both
/// values where both layers have the name, else the value of the layer
/// that has it.
pub proof fn lemma_overlay_lookup<W>(
    base: Seq<(Seq<char>, W)>,
    over: Seq<(Seq<char>, W)>,
    comb: spec_fn(W, W) -> W,
    k: Seq<char>,
)
    ensures
        vlookup(overlay_map(base, over, comb), k) == match (vlookup(base, k), vlookup(over, k)) {
            (Some(b), Some(o)) => Some(comb(b, o)),
            (Some(b), None) => Some(b),
            (None, o) => o,
        },
{
    let m = overlay_map(base, over, comb);
    let head = base.map_values(|e: (Seq<char>, W)| overlaid_entry(e, over, comb));
    let tail = new_entries(base, over);
    lemma_vkey_index_from(base, k, 0);
    let ib = vkey_index_from(base, k, 0);
    assert forall|j: int| 0 <= j < base.len() implies #[trigger] m[j].0 == base[j].0 by {
        assert(m[j] == head[j]);
    }
    if ib < base.len() {
        lemma_first_index(m, k, ib);
    } else {
        lemma_new_entries(base, over, k);
        lemma_vkey_index_from(tail, k, 0);
        let it = vkey_index_from(tail, k, 0);
        assert forall|j: int| 0 <= j < base.len() + it implies #[trigger] m[j].0 != k by {
            if j >= base.len() {
                assert(m[j] == tail[j - base.len()]);
            }
        }
        if it < tail.len() {
            assert(m[base.len() + it] == tail[it]);
        }
        lemma_first_index(m, k, base.len() + it);
    }
}

/// No name occurs in two entries.
pub open spec fn vunique<W>(m: Seq<(Seq<char>, W)>) -> bool {
    forall|i: int, j: int| 0 <= i < j < m.len() ==> (#[trigger] m[i]).0 != (#[trigger] m[j]).0
}

proof fn lemma_new_entries_names<W>(base: Seq<(Seq<char>, W)>, over: Seq<(Seq<char>, W)>)
    ensures
        forall|i: int|
            0 <= i < new_entries(base, over).len() ==> vlookup(base, (#[trigger] new_entries(base, over)[i]).0)
                is None,
        forall|i: int|
            0 <= i < new_entries(base, over).len() ==> exists|j: int|
                0 <= j < over.len() && over[j] == #[trigger] new_entries(base, over)[i],
        vunique(over) ==> vunique(new_entries(base, over)),
    decreases over.len(),
{
    if over.len() > 0 {
        let o = over.drop_last();
        lemma_new_entries_names(base, o);
        let r = new_entries(base, o);
        let n = new_entries(base, over);
        assert forall|j: int| 0 <= j < o.len() implies #[trigger] over[j] == o[j] by {}
        if vlookup(base, over.last().0) is None {
            assert(n == r.push(over.last()));
            assert forall|i: int| 0 <= i < n.len() implies exists|j: int|
                0 <= j < over.len() && over[j] == #[trigger] n[i] by {
                if i < r.len() {
                    assert(n[i] == r[i]);
                    let j = choose|j: int| 0 <= j < o.len() && o[j] == r[i];
                    assert(over[j] == o[j]);
                } else {
                    assert(over[over.len() - 1] == n[i]);
                }
            }
            assert forall|i: int| 0 <= i < n.len() implies vlookup(base, (#[trigger] n[i]).0) is None by {
                if i < r.len() {
                    assert(n[i] == r[i]);
                }
            }
            if vunique(over) {
                assert(vunique(o)) by {
                    assert forall|a: int, b: int| 0 <= a < b < o.len() implies (#[trigger] o[a]).0
                        != (#[trigger] o[b]).0 by {
                        assert(over[a] == o[a] && over[b] == o[b]);
                    }
                }
                assert forall|a: int, b: int| 0 <= a < b < n.len() implies (#[trigger] n[a]).0
                    != (#[trigger] n[b]).0 by {
                    if b < r.len() {
                        assert(n[a] == r[a] && n[b] == r[b]);
                    } else {
                        assert(n[a] == r[a]);
                        let j = choose|j: int| 0 <= j < o.len() && o[j] == r[a];
                        assert(over[j] == o[j]);
                        assert(over[j].0 != over[over.len() - 1].0);
                    }
                }
            }
        } else {
            assert(n == r);
            assert forall|i: int| 0 <= i < n.len() implies exists|j: int|
                0 <= j < over.len() && over[j] == #[trigger] n[i] by {
                let j = choose|j: int| 0 <= j < o.len() && o[j] == r[i];
                assert(over[j] == o[j]);
            }
            if vunique(over) {
                assert(vunique(o)) by {
                    assert forall|a: int, b: int| 0 <= a < b < o.len() implies (#[trigger] o[a]).0
                        != (#[trigger] o[b]).0 by {
                        assert(over[a] == o[a] && over[b] == o[b]);
                    }
                }
            }
        }
    }
}

/// Laying one map with unique names over another gives a map with unique
/// names.
pub proof fn lemma_overlay_unique<W>(
    base: Seq<(Seq<char>, W)>,
    over: Seq<(Seq<char>, W)>,
    comb: spec_fn(W, W) -> W,
)
    requires
        vunique(base),
        vunique(over),
    ensures
        vunique(overlay_map(base, over, comb)),
{
    let m = overlay_map(base, over, comb);
    let head = base.map_values(|e: (Seq<char>, W)| overlaid_entry(e, over, comb));
    let tail = new_entries(base, over);
    lemma_new_entries_names(base, over);
    assert forall|a: int, b: int| 0 <= a < b < m.len() implies (#[trigger] m[a]).0 != (#[trigger] m[b]).0 by {
        if b < base.len() {
            assert(m[a] == head[a] && m[b] == head[b]);
        } else if a < base.len() {
            assert(m[a] == head[a]);
            assert(m[b] == tail[b - base.len()]);
            lemma_vkey_index_from(base, base[a].0, 0);
            assert(vlookup(base, base[a].0) is Some);
            assert(vlookup(base, tail[b - base.len()].0) is None);
        } else {
            assert(m[a] == tail[a - base.len()] && m[b] == tail[b - base.len()]);
        }
    }
}

// ─── Values that can be layered ──────────────────────────────────────────────

/// A value of a configuration map, with what laying one value over another
/// gives.
pub trait Overlay: Sized {
    /// The value as plain data.
    spec fn overlay_view(&self) -> OverlayValue;

    /// The value laid over `base` gives.
    spec fn combined(base: OverlayValue, over: OverlayValue) -> OverlayValue;

    /// A copy of the value.
    fn duplicate(&self) -> (r: Self)
        ensures
            r.overlay_view() == self.overlay_view(),
    ;

    /// `over` laid on top of `self`.
    fn combine(&self, over: &Self) -> (r: Self)
        ensures
            r.overlay_view() == Self::combined(self.overlay_view(), over.overlay_view()),
    ;
}

/// The plain data of a value in a configuration map.
pub enum OverlayValue {
    /// A string.
    Text(Seq<char>),
    /// A priority.
    Level(Priority),
    /// A flag.
    Flag(bool),
    /// A map from names to flags (each value a `Flag`).
    Flags(Seq<(Seq<char>, OverlayValue)>),
    /// A per-status override: enabled flag, sound, title.
    Override(Option<bool>, Option<Seq<char>>, Option<Seq<char>>),
}

/// The later of two values.
pub open spec fn later(b: OverlayValue, o: OverlayValue) -> OverlayValue {
    o
}

/// The later layer's option where it is set, else the earlier one's.
pub open spec fn or_else<T>(o: Option<T>, b: Option<T>) -> Option<T> {
    match o {
        Some(x) => Some(x),
        None => b,
    }
}

/// How the values of `V` combine, as a function.
pub open spec fn combiner<V: Overlay>() -> spec_fn(OverlayValue, OverlayValue) -> OverlayValue {
    |b: OverlayValue, o: OverlayValue| V::combined(b, o)
}

/// A named sequence of values as plain data.
pub open spec fn entries_view<V: Overlay>(m: Seq<(String, V)>) -> Seq<(Seq<char>, OverlayValue)> {
    m.map_values(|e: (String, V)| (e.0@, e.1.overlay_view()))
}


impl Overlay for String {
    open spec fn overlay_view(&self) -> OverlayValue {
        OverlayValue::Text(self@)
    }

    open spec fn combined(base: OverlayValue, over: OverlayValue) -> OverlayValue {
        over
    }

    fn duplicate(&self) -> (r: Self) {
        owned(self.as_str())
    }

    fn combine(&self, over: &Self) -> (r: Self) {
        owned(over.as_str())
    }
}

impl Overlay for Priority {
    open spec fn overlay_view(&self) -> OverlayValue {
        OverlayValue::Level(*self)
    }

    open spec fn combined(base: OverlayValue, over: OverlayValue) -> OverlayValue {
        over
    }

    fn duplicate(&self) -> (r: Self) {
        *self
    }

    fn combine(&self, over: &Self) -> (r: Self) {
        *over
    }
}

impl Overlay for bool {
    open spec fn overlay_view(&self) -> OverlayValue {
        OverlayValue::Flag(*self)
    }

    open spec fn combined(base: OverlayValue, over: OverlayValue) -> OverlayValue {
        over
    }

    fn duplicate(&self) -> (r: Self) {
        *self
    }

    fn combine(&self, over: &Self) -> (r: Self) {
        *over
    }
}


impl Overlay for Vec<(String, bool)> {
    open spec fn overlay_view(&self) -> OverlayValue {
        OverlayValue::Flags(entries_view(self@))
    }

    open spec fn combined(base: OverlayValue, over: OverlayValue) -> OverlayValue {
        match (base, over) {
            (OverlayValue::Flags(b), OverlayValue::Flags(o)) => OverlayValue::Flags(
                overlay_map(b, o, combiner::<bool>()),
            ),
            _ => over,
        }
    }

    fn duplicate(&self) -> (r: Self) {
        let empty: Vec<(String, bool)> = Vec::new();
        let r = merge_entries(self, &empty);
        proof {
            let e = entries_view(self@);
            assert(entries_view(empty@) =~= Seq::<(Seq<char>, OverlayValue)>::empty());
            assert(new_entries(e, Seq::<(Seq<char>, OverlayValue)>::empty()) =~= Seq::<
                (Seq<char>, OverlayValue),
            >::empty());
            assert forall|j: int| 0 <= j < e.len() implies overlaid_entry(
                #[trigger] e[j],
                Seq::<(Seq<char>, OverlayValue)>::empty(),
                combiner::<bool>(),
            ) == e[j] by {}
            assert(entries_view(r@) =~= e);
        }
        r
    }

    fn combine(&self, over: &Self) -> (r: Self) {
        merge_entries(self, over)
    }
}

impl Overlay for StatusOverride {
    open spec fn overlay_view(&self) -> OverlayValue {
        OverlayValue::Override(
            self.enabled,
            match self.sound {
                Some(s) => Some(s@),
                None => None,
            },
            match self.title {
                Some(t) => Some(t@),
                None => None,
            },
        )
    }

    open spec fn combined(base: OverlayValue, over: OverlayValue) -> OverlayValue {
        match (base, over) {
            (OverlayValue::Override(be, bs, bt), OverlayValue::Override(oe, os, ot)) => {
                OverlayValue::Override(or_else(oe, be), or_else(os, bs), or_else(ot, bt))
            },
            _ => over,
        }
    }

    fn duplicate(&self) -> (r: Self) {
        StatusOverride {
            enabled: self.enabled,
            sound: copy_text(&self.sound),
            title: copy_text(&self.title),
        }
    }

    fn combine(&self, over: &Self) -> (r: Self) {
        StatusOverride {
            enabled: match over.enabled {
                Some(e) => Some(e),
                None => self.enabled,
            },
            sound: match &over.sound {
                Some(_) => copy_text(&over.sound),
                None => copy_text(&self.sound),
            },
            title: match &over.title {
                Some(_) => copy_text(&over.title),
                None => copy_text(&self.title),
            },
        }
    }
}

fn copy_text(t: &Option<String>) -> (r: Option<String>)
    ensures
        match r {
            Some(s) => Some(s@),
            None => None,
        } == match *t {
            Some(s) => Some(s@),
            None => None,
        },
{
    match t {
        Some(s) => Some(owned(s.as_str())),
        None => None,
    }
}

proof fn lemma_index_view<V: Overlay>(m: Seq<(String, V)>, k: Seq<char>, i: int)
    requires
        0 <= i <= m.len(),
    ensures
        key_index_from(m, k, i) == vkey_index_from(entries_view(m), k, i),
    decreases m.len() - i,
{
    if i < m.len() {
        assert(entries_view(m)[i].0 == m[i].0@);
        lemma_index_view(m, k, i + 1);
    }
}

/// Lays the map `over` on top of the map `base`: the entries of `base` in
/// order, each combined with the entry of `over` under the same name, then
/// the entries of `over` under names that `base` lacks.
pub fn merge_entries<V: Overlay>(base: &Vec<(String, V)>, over: &Vec<(String, V)>) -> (r: Vec<
    (String, V),
>)
    ensures
        entries_view(r@) == overlay_map(entries_view(base@), entries_view(over@), combiner::<V>()),
{
    let ghost eb = entries_view(base@);
    let ghost eo = entries_view(over@);
    let ghost comb = combiner::<V>();
    let mut out: Vec<(String, V)> = Vec::new();
    let mut i: usize = 0;
    while i < base.len()
        invariant
            i <= base.len(),
            eb == entries_view(base@),
            eo == entries_view(over@),
            comb == combiner::<V>(),
            out@.len() == i,
            forall|j: int| 0 <= j < i ==> #[trigger] entries_view(out@)[j] == overlaid_entry(eb[j], eo, comb),
        decreases base.len() - i,
    {
        let k = &base[i].0;
        let v = &base[i].1;
        let f = find_key(over, k.as_str());
        proof {
            lemma_index_view(over@, k@, 0);
            lemma_key_index_from(over@, k@, 0);
        }
        let ghost before = out@;
        assert(eb[i as int] == (k@, v.overlay_view()));
        if f < over.len() {
            let c = v.combine(&over[f].1);
            out.push((owned(k.as_str()), c));
        } else {
            out.push((owned(k.as_str()), v.duplicate()));
        }
        proof {
            assert forall|j: int| 0 <= j < i + 1 implies #[trigger] entries_view(out@)[j] == overlaid_entry(eb[j], eo, comb) by {
                if j < i {
                    assert(out@[j] == before[j]);
                    assert(entries_view(out@)[j] == entries_view(before)[j]);
                }
            }
        }
        i = i + 1;
    }
    let ghost head = out@;
    assert(entries_view(head) =~= eb.map_values(|e: (Seq<char>, OverlayValue)| overlaid_entry(e, eo, comb)));
    let mut j: usize = 0;
    while j < over.len()
        invariant
            j <= over.len(),
            eb == entries_view(base@),
            eo == entries_view(over@),
            comb == combiner::<V>(),
            entries_view(out@) == entries_view(head) + new_entries(eb, eo.take(j as int)),
            entries_view(head) == eb.map_values(|e: (Seq<char>, OverlayValue)| overlaid_entry(e, eo, comb)),
        decreases over.len() - j,
    {
        let k = &over[j].0;
        let f = find_key(base, k.as_str());
        proof {
            lemma_index_view(base@, k@, 0);
            lemma_key_index_from(base@, k@, 0);
            assert(eo.take(j as int + 1).drop_last() =~= eo.take(j as int));
        }
        let ghost before = out@;
        assert(eo.take(j as int + 1).last() == eo[j as int]);
        assert(eo[j as int] == (k@, over@[j as int].1.overlay_view()));
        if f == base.len() {
            out.push((owned(k.as_str()), over[j].1.duplicate()));
            assert(entries_view(out@) =~= entries_view(before).push(eo[j as int]));
        } else {
            assert(entries_view(out@) =~= entries_view(before));
        }
        proof {
            assert(entries_view(out@) =~= entries_view(head) + new_entries(eb, eo.take(j as int + 1)));
        }
        j = j + 1;
    }
    assert(eo.take(over.len() as int) =~= eo);
    out
}


proof fn lemma_unique_view<V: Overlay>(m: Seq<(String, V)>)
    ensures
        unique_names(m) == vunique(entries_view(m)),
{
    let e = entries_view(m);
    assert forall|i: int| 0 <= i < m.len() implies (#[trigger] e[i]).0 == m[i].0@ by {}
    if unique_names(m) {
        assert forall|a: int, b: int| 0 <= a < b < e.len() implies (#[trigger] e[a]).0 != (#[trigger] e[b]).0 by {
            assert(m[a].0@ != m[b].0@);
        }
    }
    if vunique(e) {
        assert forall|a: int, b: int| 0 <= a < b < m.len() implies (#[trigger] m[a]).0@ != (#[trigger] m[b]).0@ by {
            assert(e[a].0 != e[b].0);
        }
    }
}

/// A value whose flags (if it holds a map of flags) name no channel twice.
pub open spec fn flags_unique(v: OverlayValue) -> bool {
    match v {
        OverlayValue::Flags(f) => vunique(f),
        _ => true,
    }
}

proof fn lemma_overlay_flags_unique(
    base: Seq<(Seq<char>, OverlayValue)>,
    over: Seq<(Seq<char>, OverlayValue)>,
)
    requires
        forall|i: int| 0 <= i < base.len() ==> flags_unique(#[trigger] base[i].1),
        forall|i: int| 0 <= i < over.len() ==> flags_unique(#[trigger] over[i].1),
    ensures
        ({
            let m = overlay_map(base, over, combiner::<Vec<(String, bool)>>());
            forall|i: int| 0 <= i < m.len() ==> flags_unique(#[trigger] m[i].1)
        }),
{
    let comb = combiner::<Vec<(String, bool)>>();
    let m = overlay_map(base, over, comb);
    let head = base.map_values(|e: (Seq<char>, OverlayValue)| overlaid_entry(e, over, comb));
    let tail = new_entries(base, over);
    lemma_new_entries_names(base, over);
    assert forall|i: int| 0 <= i < m.len() implies flags_unique(#[trigger] m[i].1) by {
        if i < base.len() {
            assert(m[i] == head[i]);
            lemma_vkey_index_from(over, base[i].0, 0);
            match vlookup(over, base[i].0) {
                Some(o) => {
                    let k = vkey_index_from(over, base[i].0, 0);
                    assert(flags_unique(over[k].1));
                    match (base[i].1, o) {
                        (OverlayValue::Flags(b), OverlayValue::Flags(f)) => {
                            lemma_overlay_unique(b, f, combiner::<bool>());
                        },
                        _ => {},
                    }
                },
                None => {},
            }
        } else {
            assert(m[i] == tail[i - base.len()]);
            let j = choose|j: int| 0 <= j < over.len() && over[j] == tail[i - base.len()];
            assert(flags_unique(over[j].1));
        }
    }
}

/// The maps of a configuration hold each name once: the webhook headers,
/// the priority overrides, the channel overrides (and each priority's map
/// of channels), and the per-status overrides.
pub open spec fn config_maps_unique(c: Config) -> bool {
    &&& unique_names(c.webhook.headers@)
    &&& unique_names(c.priority_overrides@)
    &&& unique_names(c.priority_channels@)
    &&& forall|i: int| 0 <= i < c.priority_channels@.len() ==> unique_names(#[trigger] c.priority_channels@[i].1@)
    &&& unique_names(c.status_overrides@)
}

proof fn lemma_merge_unique<V: Overlay>(b: Seq<(String, V)>, o: Seq<(String, V)>, r: Seq<(String, V)>)
    requires
        unique_names(b),
        unique_names(o),
        entries_view(r) == overlay_map(entries_view(b), entries_view(o), combiner::<V>()),
    ensures
        unique_names(r),
{
    lemma_unique_view(b);
    lemma_unique_view(o);
    lemma_unique_view(r);
    lemma_overlay_unique(entries_view(b), entries_view(o), combiner::<V>());
}

proof fn lemma_channels_unique(
    b: Seq<(String, Vec<(String, bool)>)>,
    o: Seq<(String, Vec<(String, bool)>)>,
    r: Seq<(String, Vec<(String, bool)>)>,
)
    requires
        forall|i: int| 0 <= i < b.len() ==> unique_names(#[trigger] b[i].1@),
        forall|i: int| 0 <= i < o.len() ==> unique_names(#[trigger] o[i].1@),
        entries_view(r) == overlay_map(
            entries_view(b),
            entries_view(o),
            combiner::<Vec<(String, bool)>>(),
        ),
    ensures
        forall|i: int| 0 <= i < r.len() ==> unique_names(#[trigger] r[i].1@),
{
    let eb = entries_view(b);
    let eo = entries_view(o);
    assert forall|i: int| 0 <= i < eb.len() implies flags_unique(#[trigger] eb[i].1) by {
        lemma_unique_view(b[i].1@);
    }
    assert forall|i: int| 0 <= i < eo.len() implies flags_unique(#[trigger] eo[i].1) by {
        lemma_unique_view(o[i].1@);
    }
    lemma_overlay_flags_unique(eb, eo);
    assert forall|i: int| 0 <= i < r.len() implies unique_names(#[trigger] r[i].1@) by {
        let er = entries_view(r);
        assert(flags_unique(er[i].1));
        lemma_unique_view(r[i].1@);
    }
}

// ─── Whole configurations ────────────────────────────────────────────────────

/// `r` is `over` laid on top of `base`: every setting of `over` wins, and
/// the maps (webhook headers, priority overrides, channel overrides per
/// priority and their inner maps, per-status overrides field by field) are
/// merged name by name, the later layer winning where both have a value.
pub open spec fn merged_config(base: Config, over: Config, r: Config) -> bool {
    &&& r.desktop == over.desktop
    &&& r.sound == over.sound
    &&& r.terminal_bell == over.terminal_bell
    &&& r.webhook.enabled == over.webhook.enabled
    &&& r.webhook.preset == over.webhook.preset
    &&& r.webhook.url == over.webhook.url
    &&& r.webhook.chat_id == over.webhook.chat_id
    &&& entries_view(r.webhook.headers@) == overlay_map(
        entries_view(base.webhook.headers@),
        entries_view(over.webhook.headers@),
        combiner::<String>(),
    )
    &&& r.webhook.template == over.webhook.template
    &&& r.webhook.retry_max == over.webhook.retry_max
    &&& r.webhook.timeout_seconds == over.webhook.timeout_seconds
    &&& r.activity == over.activity
    &&& r.suppression == over.suppression
    &&& r.team == over.team
    &&& r.debug == over.debug
    &&& entries_view(r.priority_overrides@) == overlay_map(
        entries_view(base.priority_overrides@),
        entries_view(over.priority_overrides@),
        combiner::<Priority>(),
    )
    &&& entries_view(r.priority_channels@) == overlay_map(
        entries_view(base.priority_channels@),
        entries_view(over.priority_channels@),
        combiner::<Vec<(String, bool)>>(),
    )
    &&& entries_view(r.status_overrides@) == overlay_map(
        entries_view(base.status_overrides@),
        entries_view(over.status_overrides@),
        combiner::<StatusOverride>(),
    )
}

impl Config {
    /// Lays `other` on top of `self`. Every setting of `other` wins; maps
    /// are merged name by name, and a per-status override keeps the earlier
    /// layer's value where the later one leaves a field unset. Layering two
    /// configurations always succeeds.
    pub fn merge(self, other: Config) -> (r: Result<Config, NotifyError>)
        ensures
            r matches Ok(c) && merged_config(self, other, c),
            config_maps_unique(self) && config_maps_unique(other) ==> (r matches Ok(c)
                && config_maps_unique(c)),
    {
        let headers = merge_entries(&self.webhook.headers, &other.webhook.headers);
        let priority_overrides = merge_entries(&self.priority_overrides, &other.priority_overrides);
        let priority_channels = merge_entries(&self.priority_channels, &other.priority_channels);
        let status_overrides = merge_entries(&self.status_overrides, &other.status_overrides);
        proof {
            if config_maps_unique(self) && config_maps_unique(other) {
                lemma_merge_unique(self.webhook.headers@, other.webhook.headers@, headers@);
                lemma_merge_unique(self.priority_overrides@, other.priority_overrides@, priority_overrides@);
                lemma_merge_unique(self.priority_channels@, other.priority_channels@, priority_channels@);
                lemma_channels_unique(self.priority_channels@, other.priority_channels@, priority_channels@);
                lemma_merge_unique(self.status_overrides@, other.status_overrides@, status_overrides@);
            }
        }
        let w = other.webhook;
        Ok(
            Config {
                desktop: other.desktop,
                sound: other.sound,
                terminal_bell: other.terminal_bell,
                webhook: WebhookConfig {
                    enabled: w.enabled,
                    preset: w.preset,
                    url: w.url,
                    chat_id: w.chat_id,
                    headers,
                    template: w.template,
                    retry_max: w.retry_max,
                    timeout_seconds: w.timeout_seconds,
                },
                activity: other.activity,
                suppression: other.suppression,
                team: other.team,
                debug: other.debug,
                priority_overrides,
                priority_channels,
                status_overrides,
            },
        )
    }
}

} // verus!
