//! Listing sound files: which file names count as sounds, and their order.
use vstd::prelude::*;

use crate::text::{chars_of, slice_chars, str_eq};

verus! {

// ─── File name extensions ────────────────────────────────────────────────────

/// Index of the last `c` before index `j` (-1 when none).
pub open spec fn last_index_before(s: Seq<char>, c: char, j: int) -> int
    decreases j,
{
    if j <= 0 || j > s.len() {
        -1
    } else if s[j - 1] == c {
        j - 1
    } else {
        last_index_before(s, c, j - 1)
    }
}

/// The extension of a file name as `Path::extension` reads it: the text
/// after the last `.`, except for `..` and for names whose only dot is
/// their first character.
pub open spec fn extension(name: Seq<char>) -> Option<Seq<char>> {
    let i = last_index_before(name, '.', name.len() as int);
    if i <= 0 || name == ".."@ {
        None
    } else {
        Some(name.subrange(i + 1, name.len() as int))
    }
}

proof fn lemma_last_index_before(s: Seq<char>, c: char, j: int)
    requires
        0 <= j <= s.len(),
    ensures
        -1 <= last_index_before(s, c, j) < j,
        last_index_before(s, c, j) >= 0 ==> s[last_index_before(s, c, j)] == c,
    decreases j,
{
    if j > 0 && s[j - 1] != c {
        lemma_last_index_before(s, c, j - 1);
    }
}

/// The extension of a file name.
pub fn file_extension(name: &str) -> (r: Option<String>)
    ensures
        match r {
            Some(e) => extension(name@) == Some(e@),
            None => extension(name@) is None,
        },
{
    let v = chars_of(name);
    let mut j = v.len();
    while j > 0
        invariant
            j <= v.len(),
            v@ == name@,
            last_index_before(v@, '.', v.len() as int) == last_index_before(v@, '.', j as int),
        ensures
            j <= v.len(),
            last_index_before(v@, '.', v.len() as int) == last_index_before(v@, '.', j as int),
            j > 0 ==> v@[j - 1] == '.',
        decreases j,
    {
        if v[j - 1] == '.' {
            break;
        }
        j = j - 1;
    }
    proof {
        reveal_strlit("..");
    }
    // `j - 1` is the last dot, if `j > 0`.
    if j <= 1 || str_eq(name, "..") {
        None
    } else {
        let e = slice_chars(&v, j, v.len());
        Some(crate::text::string_of(&e))
    }
}

/// The file name has one of the extensions `exts`.
pub open spec fn has_extension_in(name: Seq<char>, exts: Seq<Seq<char>>) -> bool {
    match extension(name) {
        Some(e) => exts.contains(e),
        None => false,
    }
}

/// Whether a file name has one of the extensions in `exts`.
pub fn extension_in(name: &str, exts: &Vec<&str>) -> (r: bool)
    ensures
        r == has_extension_in(name@, exts@.map_values(|e: &str| e@)),
{
    match file_extension(name) {
        Some(e) => {
            let mut i: usize = 0;
            while i < exts.len()
                invariant
                    i <= exts.len(),
                    extension(name@) == Some(e@),
                    forall|k: int| 0 <= k < i ==> exts@[k]@ != e@,
                decreases exts.len() - i,
            {
                if str_eq(exts[i], e.as_str()) {
                    assert(exts@.map_values(|x: &str| x@)[i as int] == e@);
                    return true;
                }
                i = i + 1;
            }
            proof {
                let m = exts@.map_values(|x: &str| x@);
                if m.contains(e@) {
                    let k = choose|k: int| 0 <= k < m.len() && m[k] == e@;
                    assert(exts@[k]@ == e@);
                }
            }
            false
        },
        None => false,
    }
}

// ─── Order ───────────────────────────────────────────────────────────────────

/// `a` comes no later than `b` in the order of their characters' code
/// points (which is also the byte order of their UTF-8 forms).
pub open spec fn text_le(a: Seq<char>, b: Seq<char>) -> bool
    decreases a.len(),
{
    if a.len() == 0 {
        true
    } else if b.len() == 0 {
        false
    } else if a[0] != b[0] {
        a[0] < b[0]
    } else {
        text_le(a.drop_first(), b.drop_first())
    }
}

/// Any two texts are ordered one way or the other.
pub proof fn lemma_text_le_total(a: Seq<char>, b: Seq<char>)
    ensures
        text_le(a, b) || text_le(b, a),
    decreases a.len(),
{
    if a.len() > 0 && b.len() > 0 {
        if a[0] == b[0] {
            lemma_text_le_total(a.drop_first(), b.drop_first());
        }
    }
}

/// The order is transitive.
pub proof fn lemma_text_le_transitive(a: Seq<char>, b: Seq<char>, c: Seq<char>)
    requires
        text_le(a, b),
        text_le(b, c),
    ensures
        text_le(a, c),
    decreases a.len(),
{
    if a.len() > 0 && b.len() > 0 && c.len() > 0 && a[0] == b[0] && b[0] == c[0] {
        lemma_text_le_transitive(a.drop_first(), b.drop_first(), c.drop_first());
    }
}

fn text_le_exec(a: &Vec<char>, b: &Vec<char>) -> (r: bool)
    ensures
        r == text_le(a@, b@),
{
    let mut i: usize = 0;
    assert(a@.skip(0) =~= a@);
    assert(b@.skip(0) =~= b@);
    while i < a.len() && i < b.len()
        invariant
            i <= a.len(),
            i <= b.len(),
            a@.take(i as int) == b@.take(i as int),
            text_le(a@, b@) == text_le(a@.skip(i as int), b@.skip(i as int)),
        decreases a.len() - i,
    {
        if a[i] != b[i] {
            return a[i] < b[i];
        }
        proof {
            assert(a@.skip(i as int).drop_first() =~= a@.skip(i as int + 1));
            assert(b@.skip(i as int).drop_first() =~= b@.skip(i as int + 1));
            assert(a@.take(i as int + 1) =~= a@.take(i as int).push(a@[i as int]));
            assert(b@.take(i as int + 1) =~= b@.take(i as int).push(b@[i as int]));
        }
        i = i + 1;
    }
    i == a.len()
}

/// The texts are in order.
pub open spec fn texts_sorted(s: Seq<Seq<char>>) -> bool {
    forall|i: int, j: int| 0 <= i < j < s.len() ==> text_le(#[trigger] s[i], #[trigger] s[j])
}

/// The names among `names` that have one of the extensions `exts`, in
/// their given order.
pub open spec fn names_with_extension(names: Seq<Seq<char>>, exts: Seq<Seq<char>>) -> Seq<Seq<char>> {
    names.filter(extension_pred(exts))
}

/// `has_extension_in` as a predicate on names.
pub open spec fn extension_pred(exts: Seq<Seq<char>>) -> spec_fn(Seq<char>) -> bool {
    |n: Seq<char>| has_extension_in(n, exts)
}

/// Texts as character sequences.
pub open spec fn texts_view(s: Seq<String>) -> Seq<Seq<char>> {
    s.map_values(|x: String| x@)
}

/// The file names that have one of the extensions `exts`, sorted by code
/// point (the order in which sound files are listed).
pub fn sorted_with_extension(names: &Vec<String>, exts: &Vec<&str>) -> (r: Vec<String>)
    ensures
        texts_sorted(texts_view(r@)),
        texts_view(r@).to_multiset() == names_with_extension(
            texts_view(names@),
            exts@.map_values(|e: &str| e@),
        ).to_multiset(),
{
    let ghost ev = exts@.map_values(|e: &str| e@);
    let ghost nv = texts_view(names@);
    let mut out: Vec<String> = Vec::new();
    let mut i: usize = 0;
    assert(names_with_extension(nv.take(0), ev) =~= Seq::<Seq<char>>::empty());
    assert(texts_view(out@) =~= Seq::<Seq<char>>::empty());
    while i < names.len()
        invariant
            i <= names.len(),
            ev == exts@.map_values(|e: &str| e@),
            nv == texts_view(names@),
            texts_sorted(texts_view(out@)),
            texts_view(out@).to_multiset() == names_with_extension(nv.take(i as int), ev).to_multiset(),
        decreases names.len() - i,
    {
        let name = &names[i];
        proof {
            assert(nv.take(i as int + 1) =~= nv.take(i as int).push(nv[i as int]));
            nv.take(i as int).lemma_filter_push(nv[i as int], extension_pred(ev));
            vstd::seq_lib::to_multiset_build(names_with_extension(nv.take(i as int), ev), nv[i as int]);
        }
        if extension_in(name.as_str(), exts) {
            let x = chars_of(name.as_str());
            // Insert after every name that is no later than this one.
            let mut p: usize = 0;
            while p < out.len()
                invariant
                    p <= out.len(),
                    x@ == name@,
                    texts_sorted(texts_view(out@)),
                    forall|q: int| 0 <= q < p ==> text_le(#[trigger] out@[q]@, x@),
                ensures
                    p <= out.len(),
                    forall|q: int| 0 <= q < p ==> text_le(#[trigger] out@[q]@, x@),
                    p < out.len() ==> !text_le(out@[p as int]@, x@),
                decreases out.len() - p,
            {
                let y = chars_of(out[p].as_str());
                if !text_le_exec(&y, &x) {
                    break;
                }
                p = p + 1;
            }
            let ghost before = out@;
            proof {
                if p < out.len() {
                    lemma_text_le_total(out@[p as int]@, x@);
                }
                assert forall|q: int| p <= q < before.len() implies text_le(x@, #[trigger] before[q]@) by {
                    lemma_text_le_total(before[p as int]@, x@);
                    if q > p {
                        assert(texts_view(before)[p as int] == before[p as int]@);
                        assert(texts_view(before)[q] == before[q]@);
                        assert(text_le(texts_view(before)[p as int], texts_view(before)[q]));
                        lemma_text_le_transitive(x@, before[p as int]@, before[q]@);
                    }
                }
            }
            out.insert(p, crate::text::owned(name.as_str()));
            proof {
                let tv = texts_view(out@);
                assert(tv =~= texts_view(before).insert(p as int, name@));
                assert forall|a: int, b: int| 0 <= a < b < tv.len() implies text_le(#[trigger] tv[a], #[trigger] tv[b]) by {
                    let tb = texts_view(before);
                    if a < p && b == p {
                        assert(tb[a] == before[a]@);
                    } else if a < p && b > p {
                        assert(text_le(tb[a], tb[b - 1]));
                    } else if a == p {
                        assert(tb[b - 1] == before[b - 1]@);
                    } else if b < p {
                        assert(text_le(tb[a], tb[b]));
                    } else {
                        assert(text_le(tb[a - 1], tb[b - 1]));
                    }
                }
                vstd::seq_lib::to_multiset_insert(texts_view(before), p as int, name@);
            }
        }
        i = i + 1;
    }
    assert(nv.take(names.len() as int) =~= nv);
    out
}

} // verus!
