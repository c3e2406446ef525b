//! Stable sorting of listings: directories first, then by a key, ascending
//! or descending; items whose keys are equal keep their order.

use vstd::prelude::*;
use crate::text::{lex_lt, chars_lt, chars_eq, lemma_lex_lt_total, lemma_lex_not_lt_transitive};

verus! {

/// What an item is ordered by: directory or not, then a number, then a text.
#[derive(Debug)]
pub struct SortKey {
    pub is_dir: bool,
    pub num: i128,
    pub text: Vec<char>,
}

pub open spec fn key_view(k: SortKey) -> (bool, int, Seq<char>) {
    (k.is_dir, k.num as int, k.text@)
}

/// The number, then the text.
pub open spec fn key_lt(a: (bool, int, Seq<char>), b: (bool, int, Seq<char>)) -> bool {
    a.1 < b.1 || (a.1 == b.1 && lex_lt(a.2, b.2))
}

/// `a` is placed strictly before `b`: directories first, then by key,
/// the key order reversed when `desc`.
pub open spec fn comes_before(a: (bool, int, Seq<char>), b: (bool, int, Seq<char>), desc: bool) -> bool {
    (a.0 && !b.0) || (a.0 == b.0 && (if desc { key_lt(b, a) } else { key_lt(a, b) }))
}

/// `m` placed after every item it does not come strictly before.
pub open spec fn insert_keyed<T>(sorted: Seq<(T, (bool, int, Seq<char>))>, m: (T, (bool, int, Seq<char>)), desc: bool)
    -> Seq<(T, (bool, int, Seq<char>))>
    decreases sorted.len(),
{
    if sorted.len() == 0 {
        seq![m]
    } else if !comes_before(m.1, sorted.last().1, desc) {
        sorted.push(m)
    } else {
        insert_keyed(sorted.drop_last(), m, desc).push(sorted.last())
    }
}

/// The stable sort of keyed items.
pub open spec fn sort_keyed<T>(s: Seq<(T, (bool, int, Seq<char>))>, desc: bool) -> Seq<(T, (bool, int, Seq<char>))>
    decreases s.len(),
{
    if s.len() == 0 { Seq::empty() } else { insert_keyed(sort_keyed(s.drop_last(), desc), s.last(), desc) }
}

/// Items paired with their keys.
pub open spec fn keyed<T>(items: Seq<T>, keys: Seq<(bool, int, Seq<char>)>) -> Seq<(T, (bool, int, Seq<char>))> {
    Seq::new(items.len(), |i: int| (items[i], keys[i]))
}

pub open spec fn firsts<T>(s: Seq<(T, (bool, int, Seq<char>))>) -> Seq<T> {
    Seq::new(s.len(), |i: int| s[i].0)
}

proof fn lemma_insert_keyed_at<T>(s: Seq<(T, (bool, int, Seq<char>))>, m: (T, (bool, int, Seq<char>)), desc: bool, j: int)
    requires
        0 <= j <= s.len(),
        forall|k: int| j <= k < s.len() ==> comes_before(m.1, (#[trigger] s[k]).1, desc),
        j == 0 || !comes_before(m.1, s[j - 1].1, desc),
    ensures
        insert_keyed(s, m, desc) == s.insert(j, m),
    decreases s.len(),
{
    if s.len() == 0 {
        assert(s.insert(j, m) =~= seq![m]);
    } else if j == s.len() {
        assert(s.insert(j, m) =~= s.push(m));
    } else {
        let d = s.drop_last();
        assert(comes_before(m.1, s[s.len() - 1].1, desc));
        assert forall|k: int| j <= k < d.len() implies comes_before(m.1, (#[trigger] d[k]).1, desc) by {
            assert(d[k] == s[k]);
        }
        if j > 0 { assert(d[j - 1] == s[j - 1]); }
        lemma_insert_keyed_at(d, m, desc, j);
        assert(d.insert(j, m).push(s.last()) =~= s.insert(j, m));
    }
}

fn comes_before_exec(a: &SortKey, b: &SortKey, desc: bool) -> (r: bool)
    ensures
        r == comes_before(key_view(*a), key_view(*b), desc),
{
    if a.is_dir && !b.is_dir {
        return true;
    }
    if a.is_dir != b.is_dir {
        return false;
    }
    let (x, y) = if desc { (b, a) } else { (a, b) };
    x.num < y.num || (x.num == y.num && chars_lt(&x.text, &y.text))
}

/// Sorts items by their keys (directories first, then the key, reversed
/// when `desc`); items with equal keys keep their order.
pub fn sort_by_keys<T>(items: Vec<T>, keys: Vec<SortKey>, desc: bool) -> (r: Vec<T>)
    requires
        items@.len() == keys@.len(),
    ensures
        r@ == firsts(sort_keyed(keyed(items@, keys@.map_values(|k: SortKey| key_view(k))), desc)),
{
    let ghost input = keyed(items@, keys@.map_values(|k: SortKey| key_view(k)));
    let n = items.len();
    let mut rest = items;
    let mut rest_keys = keys;
    let mut sorted: Vec<T> = Vec::new();
    let mut sorted_keys: Vec<SortKey> = Vec::new();
    let mut i: usize = 0;
    while rest.len() > 0
        invariant
            i + rest@.len() == n,
            rest@.len() == rest_keys@.len(),
            n == input.len(),
            forall|k: int| 0 <= k < rest@.len() ==> (#[trigger] rest@[k], key_view(rest_keys@[k])) == input[i + k],
            sorted@.len() == sorted_keys@.len(),
            keyed(sorted@, sorted_keys@.map_values(|k: SortKey| key_view(k))) == sort_keyed(input.take(i as int), desc),
        decreases rest.len(),
    {
        let m = rest.remove(0);
        let mk = rest_keys.remove(0);
        assert((m, key_view(mk)) == input[i as int]);
        assert(input.take((i + 1) as int).drop_last() =~= input.take(i as int));
        assert(input.take((i + 1) as int).last() == input[i as int]);
        let ghost before = keyed(sorted@, sorted_keys@.map_values(|k: SortKey| key_view(k)));
        let mut j = sorted.len();
        while j > 0 && comes_before_exec(&mk, &sorted_keys[j - 1], desc)
            invariant
                j <= sorted_keys.len(),
                sorted@.len() == sorted_keys@.len(),
                before == keyed(sorted@, sorted_keys@.map_values(|k: SortKey| key_view(k))),
                forall|k: int| j <= k < before.len() ==> comes_before(key_view(mk), (#[trigger] before[k]).1, desc),
            decreases j,
        {
            assert(before[j - 1].1 == key_view(sorted_keys@[j - 1]));
            j = j - 1;
        }
        proof {
            if j > 0 {
                assert(before[j - 1].1 == key_view(sorted_keys@[j - 1]));
            }
            lemma_insert_keyed_at(before, (m, key_view(mk)), desc, j as int);
        }
        sorted.insert(j, m);
        sorted_keys.insert(j, mk);
        assert(keyed(sorted@, sorted_keys@.map_values(|k: SortKey| key_view(k))) =~= before.insert(j as int, (m, key_view(mk))));
        assert forall|k: int| 0 <= k < rest@.len() implies (#[trigger] rest@[k], key_view(rest_keys@[k])) == input[i + 1 + k] by {
        }
        i = i + 1;
    }
    assert(input.take(n as int) =~= input);
    let ghost fin = keyed(sorted@, sorted_keys@.map_values(|k: SortKey| key_view(k)));
    assert(firsts(fin) =~= sorted@);
    sorted
}

/// Every item of `s` satisfies `q`.
pub open spec fn all_keyed<T>(s: Seq<(T, (bool, int, Seq<char>))>, q: spec_fn((T, (bool, int, Seq<char>))) -> bool) -> bool {
    forall|i: int| 0 <= i < s.len() ==> q(#[trigger] s[i])
}

proof fn lemma_insert_keyed_keeps<T>(
    s: Seq<(T, (bool, int, Seq<char>))>,
    m: (T, (bool, int, Seq<char>)),
    desc: bool,
    q: spec_fn((T, (bool, int, Seq<char>))) -> bool,
)
    requires
        all_keyed(s, q),
        q(m),
    ensures
        all_keyed(insert_keyed(s, m, desc), q),
    decreases s.len(),
{
    if s.len() == 0 {
    } else if !comes_before(m.1, s.last().1, desc) {
        let r = s.push(m);
        assert forall|i: int| 0 <= i < r.len() implies q(#[trigger] r[i]) by {
            if i < s.len() { assert(r[i] == s[i]); }
        }
    } else {
        let d = s.drop_last();
        assert forall|i: int| 0 <= i < d.len() implies q(#[trigger] d[i]) by { assert(d[i] == s[i]); }
        lemma_insert_keyed_keeps(d, m, desc, q);
        let t = insert_keyed(d, m, desc);
        let r = t.push(s.last());
        assert forall|i: int| 0 <= i < r.len() implies q(#[trigger] r[i]) by {
            if i < t.len() { assert(r[i] == t[i]); } else { assert(r[i] == s[s.len() - 1]); }
        }
    }
}

/// Sorting keeps every property that all items have.
pub proof fn lemma_sort_keyed_keeps<T>(
    s: Seq<(T, (bool, int, Seq<char>))>,
    desc: bool,
    q: spec_fn((T, (bool, int, Seq<char>))) -> bool,
)
    requires
        all_keyed(s, q),
    ensures
        all_keyed(sort_keyed(s, desc), q),
    decreases s.len(),
{
    if s.len() > 0 {
        let d = s.drop_last();
        assert forall|i: int| 0 <= i < d.len() implies q(#[trigger] d[i]) by { assert(d[i] == s[i]); }
        lemma_sort_keyed_keeps(d, desc, q);
        lemma_insert_keyed_keeps(sort_keyed(d, desc), s.last(), desc, q);
    }
}

/// No item that is not a directory comes before a directory.
pub open spec fn dirs_first<T>(s: Seq<(T, (bool, int, Seq<char>))>) -> bool {
    forall|i: int, j: int| 0 <= i < j < s.len() ==> !(!(#[trigger] s[i]).1.0 && (#[trigger] s[j]).1.0)
}

proof fn lemma_insert_keyed_dirs_first<T>(s: Seq<(T, (bool, int, Seq<char>))>, m: (T, (bool, int, Seq<char>)), desc: bool)
    requires
        dirs_first(s),
    ensures
        dirs_first(insert_keyed(s, m, desc)),
    decreases s.len(),
{
    let is_dir = |p: (T, (bool, int, Seq<char>))| p.1.0;
    if s.len() == 0 {
    } else if !comes_before(m.1, s.last().1, desc) {
        let r = s.push(m);
        if m.1.0 {
            assert(s.last().1.0);
        }
        assert forall|i: int, j: int| 0 <= i < j < r.len() implies !(!(#[trigger] r[i]).1.0 && (#[trigger] r[j]).1.0) by {
            assert(r[i] == s[i]);
            if j < s.len() {
                assert(r[j] == s[j]);
            } else if m.1.0 && i < s.len() - 1 {
                assert(s[s.len() - 1].1.0);
            }
        }
    } else {
        let d = s.drop_last();
        let last = s.last();
        assert forall|i: int, j: int| 0 <= i < j < d.len() implies !(!(#[trigger] d[i]).1.0 && (#[trigger] d[j]).1.0) by {
            assert(d[i] == s[i] && d[j] == s[j]);
        }
        lemma_insert_keyed_dirs_first(d, m, desc);
        let t = insert_keyed(d, m, desc);
        if last.1.0 {
            assert(m.1.0);
            assert forall|i: int| 0 <= i < d.len() implies is_dir(#[trigger] d[i]) by {
                assert(d[i] == s[i]);
                assert(s[s.len() - 1] == last);
            }
            lemma_insert_keyed_keeps(d, m, desc, is_dir);
        }
        let r = t.push(last);
        assert forall|i: int, j: int| 0 <= i < j < r.len() implies !(!(#[trigger] r[i]).1.0 && (#[trigger] r[j]).1.0) by {
            assert(r[i] == t[i]);
            if j < t.len() {
                assert(r[j] == t[j]);
            } else {
                assert(r[j] == last);
                if last.1.0 {
                    assert(is_dir(t[i]));
                }
            }
        }
    }
}

/// Sorting puts every directory before every other item.
pub proof fn lemma_sort_keyed_dirs_first<T>(s: Seq<(T, (bool, int, Seq<char>))>, desc: bool)
    ensures
        dirs_first(sort_keyed(s, desc)),
    decreases s.len(),
{
    if s.len() > 0 {
        lemma_sort_keyed_dirs_first(s.drop_last(), desc);
        lemma_insert_keyed_dirs_first(sort_keyed(s.drop_last(), desc), s.last(), desc);
    }
}


/// `comes_before` never holds both ways.
pub proof fn lemma_comes_before_asymmetric(a: (bool, int, Seq<char>), b: (bool, int, Seq<char>), desc: bool)
    ensures
        !(comes_before(a, b, desc) && comes_before(b, a, desc)),
{
    lemma_lex_lt_total(a.2, b.2);
}

/// Not after, then not after again, is not after: when `x` does not come
/// before `y`, nor `y` before `z`, then `x` does not come before `z`.
pub proof fn lemma_not_before_transitive(
    x: (bool, int, Seq<char>),
    y: (bool, int, Seq<char>),
    z: (bool, int, Seq<char>),
    desc: bool,
)
    requires
        !comes_before(x, y, desc),
        !comes_before(y, z, desc),
    ensures
        !comes_before(x, z, desc),
{
    lemma_lex_lt_total(x.2, y.2);
    lemma_lex_lt_total(y.2, z.2);
    lemma_lex_lt_total(x.2, z.2);
    lemma_lex_not_lt_transitive(z.2, y.2, x.2);
    lemma_lex_not_lt_transitive(x.2, y.2, z.2);
}

/// No item comes strictly before one placed ahead of it.
pub open spec fn sorted_keyed<T>(s: Seq<(T, (bool, int, Seq<char>))>, desc: bool) -> bool {
    forall|i: int, j: int| 0 <= i < j < s.len() ==> !comes_before((#[trigger] s[j]).1, (#[trigger] s[i]).1, desc)
}

proof fn lemma_insert_keyed_sorted<T>(s: Seq<(T, (bool, int, Seq<char>))>, m: (T, (bool, int, Seq<char>)), desc: bool)
    requires
        sorted_keyed(s, desc),
    ensures
        sorted_keyed(insert_keyed(s, m, desc), desc),
        insert_keyed(s, m, desc).to_multiset() == s.to_multiset().insert(m),
    decreases s.len(),
{
    broadcast use vstd::seq_lib::to_multiset_build;
    if s.len() == 0 {
        assert(seq![m] =~= s.push(m));
    } else if !comes_before(m.1, s.last().1, desc) {
        let r = s.push(m);
        assert forall|i: int, j: int| 0 <= i < j < r.len() implies !comes_before((#[trigger] r[j]).1, (#[trigger] r[i]).1, desc) by {
            assert(r[i] == s[i]);
            if j < s.len() {
                assert(r[j] == s[j]);
            } else if i < s.len() - 1 {
                lemma_not_before_transitive(m.1, s[s.len() - 1].1, s[i].1, desc);
            }
        }
    } else {
        let d = s.drop_last();
        let last = s.last();
        assert forall|i: int, j: int| 0 <= i < j < d.len() implies !comes_before((#[trigger] d[j]).1, (#[trigger] d[i]).1, desc) by {
            assert(d[i] == s[i] && d[j] == s[j]);
        }
        lemma_insert_keyed_sorted(d, m, desc);
        let t = insert_keyed(d, m, desc);
        let q = |x: (T, (bool, int, Seq<char>))| !comes_before(last.1, x.1, desc);
        assert forall|i: int| 0 <= i < d.len() implies q(#[trigger] d[i]) by {
            assert(d[i] == s[i]);
            assert(s[s.len() - 1] == last);
        }
        lemma_comes_before_asymmetric(m.1, last.1, desc);
        lemma_insert_keyed_keeps(d, m, desc, q);
        let r = t.push(last);
        assert forall|i: int, j: int| 0 <= i < j < r.len() implies !comes_before((#[trigger] r[j]).1, (#[trigger] r[i]).1, desc) by {
            assert(r[i] == t[i]);
            if j < t.len() {
                assert(r[j] == t[j]);
            } else {
                assert(q(t[i]));
            }
        }
        assert(s =~= d.push(last));
        assert(r.to_multiset() =~= s.to_multiset().insert(m));
    }
}

/// Law: the stable sort of keyed items is sorted (directories first, then
/// by key, reversed when `desc`) and holds exactly the items it was given.
pub proof fn lemma_sort_keyed_sorted<T>(s: Seq<(T, (bool, int, Seq<char>))>, desc: bool)
    ensures
        sorted_keyed(sort_keyed(s, desc), desc),
        sort_keyed(s, desc).to_multiset() == s.to_multiset(),
    decreases s.len(),
{
    broadcast use vstd::seq_lib::to_multiset_build;
    if s.len() == 0 {
        assert(s =~= Seq::<(T, (bool, int, Seq<char>))>::empty());
    } else {
        lemma_sort_keyed_sorted(s.drop_last(), desc);
        lemma_insert_keyed_sorted(sort_keyed(s.drop_last(), desc), s.last(), desc);
        assert(s =~= s.drop_last().push(s.last()));
    }
}

} // verus!
