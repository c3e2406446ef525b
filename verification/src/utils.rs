//! Path normalisation: every path the server handles is rooted, uses `/`
//! as separator and holds no empty, `.` or `..` segment.

use vstd::prelude::*;
use crate::text::{chars_of, push_char, is_prefix, chars_eq, chars_starts_with, copy_str};

verus! {

/// Both `/` and `\` separate path segments.
pub open spec fn is_sep(c: char) -> bool {
    c == '/' || c == '\\'
}

/// A segment that can stand in a clean path.
pub open spec fn valid_segment(seg: Seq<char>) -> bool {
    &&& seg.len() > 0
    &&& seg != seq!['.']
    &&& seg != seq!['.', '.']
    &&& forall|i: int| 0 <= i < seg.len() ==> !is_sep(#[trigger] seg[i])
}

pub open spec fn valid_segments(segs: Seq<Seq<char>>) -> bool {
    forall|i: int| 0 <= i < segs.len() ==> valid_segment(#[trigger] segs[i])
}

/// Applies one finished segment to the stack of kept segments: empty and
/// `.` segments vanish, `..` drops the last kept segment (above the root
/// there is nothing to drop), anything else is kept.
pub open spec fn push_segment(stack: Seq<Seq<char>>, seg: Seq<char>) -> Seq<Seq<char>> {
    if seg.len() == 0 || seg == seq!['.'] {
        stack
    } else if seg == seq!['.', '.'] {
        if stack.len() > 0 { stack.drop_last() } else { stack }
    } else {
        stack.push(seg)
    }
}

/// Reads `s` from the left: the kept segments so far and the segment
/// being read.
pub open spec fn scan(s: Seq<char>) -> (Seq<Seq<char>>, Seq<char>)
    decreases s.len(),
{
    if s.len() == 0 {
        (Seq::empty(), Seq::empty())
    } else {
        let p = scan(s.drop_last());
        if is_sep(s.last()) {
            (push_segment(p.0, p.1), Seq::empty())
        } else {
            (p.0, p.1.push(s.last()))
        }
    }
}

/// The segments that remain of `s` once it is cleaned.
pub open spec fn clean_segments(s: Seq<char>) -> Seq<Seq<char>> {
    push_segment(scan(s).0, scan(s).1)
}

/// `/seg0/seg1/.../segn`.
pub open spec fn rooted(segs: Seq<Seq<char>>) -> Seq<char>
    decreases segs.len(),
{
    if segs.len() == 0 {
        Seq::empty()
    } else {
        rooted(segs.drop_last()) + seq!['/'] + segs.last()
    }
}

/// The path made of the given segments; `/` when there are none.
pub open spec fn join_rooted(segs: Seq<Seq<char>>) -> Seq<char> {
    if segs.len() == 0 { seq!['/'] } else { rooted(segs) }
}

/// The clean form of a path.
pub open spec fn clean_path(s: Seq<char>) -> Seq<char> {
    join_rooted(clean_segments(s))
}

/// A path already in clean form.
pub open spec fn is_clean(p: Seq<char>) -> bool {
    clean_path(p) == p
}

pub proof fn lemma_push_segment_valid(stack: Seq<Seq<char>>, seg: Seq<char>)
    requires
        valid_segments(stack),
        forall|i: int| 0 <= i < seg.len() ==> !is_sep(#[trigger] seg[i]),
    ensures
        valid_segments(push_segment(stack, seg)),
{
    let r = push_segment(stack, seg);
    if seg.len() == 0 || seg == seq!['.'] {
    } else if seg == seq!['.', '.'] {
        if stack.len() > 0 {
            assert forall|i: int| 0 <= i < r.len() implies valid_segment(#[trigger] r[i]) by {
                assert(r[i] == stack[i]);
            }
        }
    } else {
        assert forall|i: int| 0 <= i < r.len() implies valid_segment(#[trigger] r[i]) by {
            if i < stack.len() {
                assert(r[i] == stack[i]);
            }
        }
    }
}

pub proof fn lemma_scan_valid(s: Seq<char>)
    ensures
        valid_segments(scan(s).0),
        forall|i: int| 0 <= i < scan(s).1.len() ==> !is_sep(#[trigger] scan(s).1[i]),
    decreases s.len(),
{
    if s.len() > 0 {
        lemma_scan_valid(s.drop_last());
        let p = scan(s.drop_last());
        if is_sep(s.last()) {
            lemma_push_segment_valid(p.0, p.1);
        } else {
            let c = p.1.push(s.last());
            assert forall|i: int| 0 <= i < c.len() implies !is_sep(#[trigger] c[i]) by {
                if i < p.1.len() {
                    assert(c[i] == p.1[i]);
                }
            }
        }
    }
}

/// Every segment of a cleaned path is a valid one.
pub proof fn lemma_clean_segments_valid(s: Seq<char>)
    ensures
        valid_segments(clean_segments(s)),
{
    lemma_scan_valid(s);
    lemma_push_segment_valid(scan(s).0, scan(s).1);
}

/// Reading characters that hold no separator only extends the current segment.
pub proof fn lemma_scan_append_word(x: Seq<char>, w: Seq<char>)
    requires
        forall|i: int| 0 <= i < w.len() ==> !is_sep(#[trigger] w[i]),
    ensures
        scan(x + w) == (scan(x).0, scan(x).1 + w),
    decreases w.len(),
{
    if w.len() == 0 {
        assert(x + w =~= x);
        assert(scan(x).1 + w =~= scan(x).1);
    } else {
        let w0 = w.drop_last();
        assert forall|i: int| 0 <= i < w0.len() implies !is_sep(#[trigger] w0[i]) by {
            assert(w0[i] == w[i]);
        }
        lemma_scan_append_word(x, w0);
        assert((x + w).drop_last() =~= x + w0);
        assert((x + w).last() == w.last());
        assert(!is_sep(w[w.len() - 1]));
        assert(scan(x).1 + w0 + seq![w.last()] =~= scan(x).1 + w);
        assert((scan(x).1 + w0).push(w.last()) =~= scan(x).1 + w);
    }
}

/// Reading a rooted path of valid segments leaves all but the last
/// segment kept and the last one being read.
pub proof fn lemma_scan_rooted(segs: Seq<Seq<char>>)
    requires
        valid_segments(segs),
        segs.len() > 0,
    ensures
        scan(rooted(segs)) == (segs.drop_last(), segs.last()),
    decreases segs.len(),
{
    let pre = segs.drop_last();
    let last = segs.last();
    assert(valid_segment(segs[segs.len() - 1]));
    assert(valid_segments(pre)) by {
        assert forall|i: int| 0 <= i < pre.len() implies valid_segment(#[trigger] pre[i]) by {
            assert(pre[i] == segs[i]);
        }
    }
    let x = rooted(pre) + seq!['/'];
    assert(rooted(segs) == x + last);
    lemma_scan_append_word(x, last);
    assert(x.drop_last() =~= rooted(pre));
    assert(x.last() == '/');
    if pre.len() == 0 {
        assert(rooted(pre) =~= Seq::<char>::empty());
        assert(x.drop_last() =~= Seq::<char>::empty());
        assert(scan(x.drop_last()) == (Seq::<Seq<char>>::empty(), Seq::<char>::empty()));
        assert(is_sep(x.last()));
        assert(scan(x) == (push_segment(Seq::<Seq<char>>::empty(), Seq::<char>::empty()), Seq::<char>::empty()));
        assert(scan(x).1 + last =~= last);
        assert(segs.drop_last() =~= Seq::<Seq<char>>::empty());
    } else {
        lemma_scan_rooted(pre);
        assert(valid_segment(pre.last()));
        assert(push_segment(pre.drop_last(), pre.last()) =~= pre);
        assert(scan(x).1 + last =~= last);
    }
}

/// Cleaning a path built from valid segments gives those segments back.
pub proof fn lemma_clean_segments_of_join(segs: Seq<Seq<char>>)
    requires
        valid_segments(segs),
    ensures
        clean_segments(join_rooted(segs)) == segs,
{
    if segs.len() == 0 {
        let s = seq!['/'];
        assert(s.drop_last() =~= Seq::<char>::empty());
        assert(scan(s.drop_last()) == (Seq::<Seq<char>>::empty(), Seq::<char>::empty()));
        assert(is_sep(s.last()));
        assert(scan(s) == (push_segment(Seq::<Seq<char>>::empty(), Seq::<char>::empty()), Seq::<char>::empty()));
    } else {
        lemma_scan_rooted(segs);
        assert(valid_segment(segs.last()));
        assert(push_segment(segs.drop_last(), segs.last()) =~= segs);
    }
}

/// Law: cleaning is idempotent; a cleaned path is its own clean form.
pub proof fn lemma_clean_idempotent(s: Seq<char>)
    ensures
        clean_path(clean_path(s)) == clean_path(s),
        is_clean(clean_path(s)),
{
    lemma_clean_segments_valid(s);
    lemma_clean_segments_of_join(clean_segments(s));
}

pub proof fn lemma_rooted_starts_with_slash(segs: Seq<Seq<char>>)
    requires
        segs.len() > 0,
    ensures
        rooted(segs).len() > 0,
        rooted(segs)[0] == '/',
    decreases segs.len(),
{
    let pre = segs.drop_last();
    let a = rooted(pre) + seq!['/'];
    assert(rooted(segs) == a + segs.last());
    if pre.len() > 0 {
        lemma_rooted_starts_with_slash(pre);
        assert(a[0] == rooted(pre)[0]);
    } else {
        assert(rooted(pre).len() == 0);
        assert(a[0] == '/');
    }
    assert((a + segs.last())[0] == a[0]);
}

/// Law: a cleaned path is rooted.
pub proof fn lemma_clean_path_rooted(s: Seq<char>)
    ensures
        clean_path(s).len() > 0,
        clean_path(s)[0] == '/',
{
    let segs = clean_segments(s);
    if segs.len() > 0 {
        lemma_rooted_starts_with_slash(segs);
    }
}


/// The segments that a stack of index ranges into `c` stands for.
pub open spec fn ranges_view(c: Seq<char>, st: Seq<(usize, usize)>) -> Seq<Seq<char>> {
    Seq::new(st.len(), |k: int| c.subrange(st[k].0 as int, st[k].1 as int))
}

pub open spec fn ranges_within(st: Seq<(usize, usize)>, bound: int) -> bool {
    forall|k: int| 0 <= k < st.len() ==> #[trigger] st[k].0 <= st[k].1 && st[k].1 <= bound
}

fn push_range(c: &Vec<char>, stack: &mut Vec<(usize, usize)>, start: usize, end: usize)
    requires
        start <= end <= c.len(),
        ranges_within(old(stack)@, c.len() as int),
    ensures
        ranges_within(final(stack)@, c.len() as int),
        ranges_view(c@, final(stack)@) == push_segment(
            ranges_view(c@, old(stack)@),
            c@.subrange(start as int, end as int),
        ),
{
    let ghost seg = c@.subrange(start as int, end as int);
    let ghost before = ranges_view(c@, stack@);
    let len = end - start;
    if len == 0 {
        assert(seg.len() == 0);
        return;
    }
    if len == 1 && c[start] == '.' {
        assert(seg =~= seq!['.']);
        return;
    }
    if len == 2 && c[start] == '.' && c[start + 1] == '.' {
        assert(seg =~= seq!['.', '.']);
        if stack.len() > 0 {
            stack.pop();
            assert(ranges_view(c@, stack@) =~= before.drop_last());
        }
        return;
    }
    proof {
        if seg == seq!['.'] {
            assert(seq!['.'].len() == 1);
            assert(len == 1);
            assert(seg[0] == c@[start as int]);
            assert(seq!['.'][0] == '.');
            assert(false);
        }
        if seg == seq!['.', '.'] {
            assert(seq!['.', '.'].len() == 2);
            assert(len == 2);
            assert(seg[0] == c@[start as int]);
            assert(seg[1] == c@[start + 1]);
            assert(seq!['.', '.'][0] == '.');
            assert(seq!['.', '.'][1] == '.');
            assert(false);
        }
    }
    stack.push((start, end));
    assert(ranges_view(c@, stack@) =~= before.push(seg));
}

/// Cleans a path: `\` counts as `/`, the result is rooted, and empty,
/// `.` and `..` segments are resolved (`..` above the root stays at the root).
pub fn fix_and_clean_path(path: &str) -> (r: String)
    ensures
        r@ == clean_path(path@),
{
    let (c, stack) = segment_ranges(path);
    let n = c.len();
    let ghost segs = ranges_view(c@, stack@);
    let mut out = String::new();
    if stack.len() == 0 {
        push_char(&mut out, '/');
        assert(out@ =~= seq!['/']);
        return out;
    }
    let mut k: usize = 0;
    while k < stack.len()
        invariant
            k <= stack.len(),
            n == c.len(),
            ranges_within(stack@, n as int),
            segs == ranges_view(c@, stack@),
            out@ == rooted(segs.take(k as int)),
        decreases stack.len() - k,
    {
        append_segment(&c, &stack, k, &mut out);
        k = k + 1;
    }
    assert(segs.take(stack.len() as int) =~= segs);
    out
}

/// The clean form of `path` and every directory above it: entry `k` is
/// the path of the first `k` kept segments, from the root (entry 0) to the
/// clean path itself (the last entry).
pub fn path_ancestors(path: &str) -> (r: Vec<String>)
    ensures
        r@.len() == clean_segments(path@).len() + 1,
        forall|k: int| 0 <= k < r@.len() ==> (#[trigger] r@[k])@ == join_rooted(clean_segments(path@).take(k)),
{
    let (c, stack) = segment_ranges(path);
    let ghost segs = ranges_view(c@, stack@);
    let mut r: Vec<String> = Vec::new();
    let mut root = String::new();
    push_char(&mut root, '/');
    assert(root@ =~= seq!['/']);
    assert(segs.take(0) =~= Seq::<Seq<char>>::empty());
    r.push(root);
    let mut out = String::new();
    let mut k: usize = 0;
    while k < stack.len()
        invariant
            k <= stack.len(),
            ranges_within(stack@, c@.len() as int),
            segs == ranges_view(c@, stack@),
            segs == clean_segments(path@),
            out@ == rooted(segs.take(k as int)),
            r@.len() == k + 1,
            forall|j: int| 0 <= j < r@.len() ==> (#[trigger] r@[j])@ == join_rooted(segs.take(j)),
        decreases stack.len() - k,
    {
        append_segment(&c, &stack, k, &mut out);
        r.push(copy_str(out.as_str()));
        assert(segs.take(k + 1).len() > 0);
        k = k + 1;
    }
    r
}

/// Appends `/` and the `k`-th kept segment to a path built of the ones
/// before it.
fn append_segment(c: &Vec<char>, stack: &Vec<(usize, usize)>, k: usize, out: &mut String)
    requires
        k < stack.len(),
        ranges_within(stack@, c.len() as int),
        old(out)@ == rooted(ranges_view(c@, stack@).take(k as int)),
    ensures
        final(out)@ == rooted(ranges_view(c@, stack@).take(k + 1)),
{
    let ghost segs = ranges_view(c@, stack@);
    let n = c.len();
    let (a, b) = stack[k];
    assert(stack@[k as int].0 <= stack@[k as int].1 && stack@[k as int].1 <= n);
    let ghost base = out@;
    push_char(out, '/');
    let mut j = a;
    while j < b
        invariant
            a <= j <= b,
            b <= n,
            n == c.len(),
            out@ == base + seq!['/'] + c@.subrange(a as int, j as int),
        decreases b - j,
    {
        push_char(out, c[j]);
        assert(c@.subrange(a as int, (j + 1) as int) =~= c@.subrange(a as int, j as int).push(c@[j as int]));
        assert(out@ =~= base + seq!['/'] + c@.subrange(a as int, (j + 1) as int));
        j = j + 1;
    }
    assert(segs.take((k + 1) as int).drop_last() =~= segs.take(k as int));
    assert(segs.take((k + 1) as int).last() == segs[k as int]);
    assert(segs[k as int] == c@.subrange(a as int, b as int));
}

/// The characters of `path` and the ranges of its kept segments, in order.
fn segment_ranges(path: &str) -> (r: (Vec<char>, Vec<(usize, usize)>))
    ensures
        r.0@ == path@,
        ranges_within(r.1@, r.0@.len() as int),
        ranges_view(r.0@, r.1@) == clean_segments(path@),
{
    let c = chars_of(path);
    let mut stack: Vec<(usize, usize)> = Vec::new();
    let mut cur_start: usize = 0;
    let n = c.len();
    let mut i: usize = 0;
    while i < n
        invariant
            n == c.len(),
            c@ == path@,
            i <= n,
            cur_start <= i,
            ranges_within(stack@, n as int),
            ranges_view(c@, stack@) == scan(c@.take(i as int)).0,
            c@.subrange(cur_start as int, i as int) == scan(c@.take(i as int)).1,
        decreases n - i,
    {
        let ch = c[i];
        assert(c@.take((i + 1) as int).drop_last() =~= c@.take(i as int));
        assert(c@.take((i + 1) as int).last() == ch);
        if ch == '/' || ch == '\\' {
            push_range(&c, &mut stack, cur_start, i);
            cur_start = i + 1;
            assert(c@.subrange(cur_start as int, (i + 1) as int) =~= Seq::<char>::empty());
        } else {
            assert(c@.subrange(cur_start as int, (i + 1) as int) =~= c@.subrange(cur_start as int, i as int).push(ch));
        }
        i = i + 1;
    }
    assert(c@.take(n as int) =~= c@);
    push_range(&c, &mut stack, cur_start, n);
    (c, stack)
}


/// `p` followed by a separator, unless it already ends with one.
pub open spec fn add_sep(p: Seq<char>) -> Seq<char> {
    if p.len() > 0 && p.last() == '/' { p } else { p.push('/') }
}

/// The path with a `/` at its end (kept when it has one).
pub fn with_trailing_sep(p: &Vec<char>) -> (r: Vec<char>)
    ensures
        r@ == add_sep(p@),
{
    let mut r = p.clone();
    if !(p.len() > 0 && p[p.len() - 1] == '/') {
        r.push('/');
    }
    assert(r@ =~= add_sep(p@));
    r
}

/// `sub` names `path` itself or something below it, both taken in clean form.
pub open spec fn is_sub_path_spec(path: Seq<char>, sub: Seq<char>) -> bool {
    let p = clean_path(path);
    let q = clean_path(sub);
    p == q || is_prefix(add_sep(p), q)
}

/// Whether `sub_path` is `path` or lies below it (both are cleaned first).
pub fn is_sub_path(path: &str, sub_path: &str) -> (r: bool)
    ensures
        r == is_sub_path_spec(path@, sub_path@),
{
    let p = chars_of(&fix_and_clean_path(path).as_str());
    let q = chars_of(&fix_and_clean_path(sub_path).as_str());
    if chars_eq(&p, &q) {
        return true;
    }
    let mut ps = p.clone();
    if !(p.len() > 0 && p[p.len() - 1] == '/') {
        ps.push('/');
    }
    assert(ps@ == add_sep(p@));
    chars_starts_with(&q, &ps)
}

pub proof fn lemma_rooted_concat(a: Seq<Seq<char>>, b: Seq<Seq<char>>)
    ensures
        rooted(a + b) == rooted(a) + rooted(b),
    decreases b.len(),
{
    if b.len() == 0 {
        assert(a + b =~= a);
        assert(rooted(b) =~= Seq::<char>::empty());
        assert(rooted(a) + rooted(b) =~= rooted(a));
    } else {
        lemma_rooted_concat(a, b.drop_last());
        assert((a + b).drop_last() =~= a + b.drop_last());
        assert((a + b).last() == b.last());
        assert(rooted(a) + rooted(b) =~= rooted(a) + rooted(b.drop_last()) + seq!['/'] + b.last());
    }
}

/// Law: every path lies below the root.
pub proof fn lemma_root_is_ancestor(root: Seq<char>, x: Seq<char>)
    requires
        clean_path(root) == seq!['/'],
    ensures
        is_sub_path_spec(root, x),
{
    lemma_clean_path_rooted(x);
    let q = clean_path(x);
    assert(add_sep(seq!['/']) == seq!['/']);
    assert(q.subrange(0, 1) =~= seq!['/']);
}

/// Law: every path lies below itself.
pub proof fn lemma_sub_path_reflexive(x: Seq<char>)
    ensures
        is_sub_path_spec(x, x),
{
}

/// Law: what lies below something that lies below `a` lies below `a`.
pub proof fn lemma_sub_path_transitive(a: Seq<char>, b: Seq<char>, c: Seq<char>)
    requires
        is_sub_path_spec(a, b),
        is_sub_path_spec(b, c),
    ensures
        is_sub_path_spec(a, c),
{
    let p = clean_path(a);
    let q = clean_path(b);
    let r = clean_path(c);
    if p != q && q != r {
        let ap = add_sep(p);
        let aq = add_sep(q);
        assert(aq.subrange(0, q.len() as int) =~= q);
        assert(r.subrange(0, q.len() as int) =~= q) by {
            assert(r.subrange(0, q.len() as int) =~= r.subrange(0, aq.len() as int).subrange(0, q.len() as int));
        }
        assert(r.subrange(0, ap.len() as int) =~= q.subrange(0, ap.len() as int));
    }
}

/// Law: two paths that each lie below the other are the same path.
pub proof fn lemma_sub_path_antisymmetric(a: Seq<char>, b: Seq<char>)
    requires
        is_sub_path_spec(a, b),
        is_sub_path_spec(b, a),
    ensures
        clean_path(a) == clean_path(b),
{
    let p = clean_path(a);
    let q = clean_path(b);
    if p != q {
        assert(add_sep(p).len() >= p.len());
        assert(add_sep(q).len() >= q.len());
        assert(p.len() == q.len());
        assert(add_sep(p).len() == p.len());
        assert(add_sep(p) =~= p);
        assert(q =~= q.subrange(0, p.len() as int));
    }
}

/// Law: when the segments of `a` begin the segments of `b`, `b` lies below `a`.
pub proof fn lemma_segment_prefix_is_sub_path(a: Seq<char>, b: Seq<char>)
    requires
        clean_segments(a).len() <= clean_segments(b).len(),
        clean_segments(b).subrange(0, clean_segments(a).len() as int) == clean_segments(a),
    ensures
        is_sub_path_spec(a, b),
{
    let sa = clean_segments(a);
    let sb = clean_segments(b);
    if sa.len() == 0 {
        lemma_root_is_ancestor(a, b);
    } else if sa.len() == sb.len() {
        assert(sb =~= sa);
    } else {
        let rest = sb.subrange(sa.len() as int, sb.len() as int);
        assert(sb =~= sa + rest);
        lemma_rooted_concat(sa, rest);
        lemma_rooted_starts_with_slash(sa);
        lemma_rooted_starts_with_slash(rest);
        let pa = rooted(sa);
        let q = rooted(sb);
        assert(q == pa + rooted(rest));
        lemma_clean_segments_valid(a);
        assert(valid_segment(sa[sa.len() - 1]));
        // the last character of a rooted path is that of its last segment
        assert(pa.last() == sa.last().last()) by {
            assert(pa == rooted(sa.drop_last()) + seq!['/'] + sa.last());
        }
        assert(pa.last() != '/') by {
            assert(!is_sep(sa.last()[sa.last().len() - 1]));
        }
        assert(add_sep(pa) == pa.push('/'));
        assert(q.subrange(0, pa.len() as int + 1) =~= pa.push('/')) by {
            assert(rooted(rest)[0] == '/');
            assert forall|i: int| 0 <= i < pa.len() + 1 implies #[trigger] q.subrange(0, pa.len() as int + 1)[i] == pa.push('/')[i] by {
                if i < pa.len() {
                    assert(q[i] == pa[i]);
                } else {
                    assert(q[i] == rooted(rest)[0]);
                }
            }
        }
    }
}

} // verus!
