//! Character-level helpers shared by the other modules.

use vstd::prelude::*;

verus! {

broadcast use vstd::string::group_string_axioms;

/// Appends one character to a string (`String::push`).
#[verifier::external_body]
pub(crate) fn push_char(s: &mut String, c: char)
    ensures
        final(s)@ == old(s)@.push(c),
{
    s.push(c);
}

/// The characters of a string slice, in order.
pub fn chars_of(s: &str) -> (v: Vec<char>)
    ensures
        v@ == s@,
{
    let mut v: Vec<char> = Vec::new();
    for c in it: s.chars()
        invariant
            v@ == it.seq().take(it.index() as int),
            it.seq() == s@,
    {
        v.push(c);
    }
    v
}


/// A string holding exactly the given characters.
pub fn string_of(v: &Vec<char>) -> (s: String)
    ensures
        s@ == v@,
{
    let mut s = String::new();
    let mut i: usize = 0;
    while i < v.len()
        invariant
            i <= v.len(),
            s@ == v@.take(i as int),
        decreases v.len() - i,
    {
        push_char(&mut s, v[i]);
        i = i + 1;
        assert(v@.take(i as int) == v@.take((i - 1) as int).push(v@[i - 1]));
    }
    assert(v@.take(v.len() as int) == v@);
    s
}

/// Whether two character sequences are equal.
pub fn chars_eq(a: &Vec<char>, b: &Vec<char>) -> (r: bool)
    ensures
        r == (a@ == b@),
{
    if a.len() != b.len() {
        return false;
    }
    let mut i: usize = 0;
    while i < a.len()
        invariant
            i <= a.len(),
            a.len() == b.len(),
            forall|k: int| 0 <= k < i ==> a@[k] == b@[k],
        decreases a.len() - i,
    {
        if a[i] != b[i] {
            return false;
        }
        i = i + 1;
    }
    assert(a@ =~= b@);
    true
}

/// `p` is a prefix of `s`.
pub open spec fn is_prefix(p: Seq<char>, s: Seq<char>) -> bool {
    p.len() <= s.len() && s.subrange(0, p.len() as int) == p
}

/// `p` is a suffix of `s`.
pub open spec fn is_suffix(p: Seq<char>, s: Seq<char>) -> bool {
    p.len() <= s.len() && s.subrange(s.len() - p.len(), s.len() as int) == p
}

/// Whether `p` is a prefix of `s` (`str::starts_with`).
pub fn chars_starts_with(s: &Vec<char>, p: &Vec<char>) -> (r: bool)
    ensures
        r == is_prefix(p@, s@),
{
    if p.len() > s.len() {
        return false;
    }
    let mut i: usize = 0;
    while i < p.len()
        invariant
            i <= p.len(),
            p.len() <= s.len(),
            forall|k: int| 0 <= k < i ==> s@[k] == p@[k],
        decreases p.len() - i,
    {
        if s[i] != p[i] {
            return false;
        }
        i = i + 1;
    }
    assert(s@.subrange(0, p.len() as int) =~= p@);
    true
}

/// Whether `p` is a suffix of `s` (`str::ends_with`).
pub fn chars_ends_with(s: &Vec<char>, p: &Vec<char>) -> (r: bool)
    ensures
        r == is_suffix(p@, s@),
{
    if p.len() > s.len() {
        return false;
    }
    let off = s.len() - p.len();
    let mut i: usize = 0;
    while i < p.len()
        invariant
            i <= p.len(),
            p.len() <= s.len(),
            off == s.len() - p.len(),
            forall|k: int| 0 <= k < i ==> s@[off + k] == p@[k],
        decreases p.len() - i,
    {
        if s[off + i] != p[i] {
            return false;
        }
        i = i + 1;
    }
    assert(s@.subrange(off as int, s.len() as int) =~= p@);
    true
}

/// `s` holds two consecutive dots somewhere.
pub open spec fn has_double_dot(s: Seq<char>) -> bool {
    exists|i: int| 0 <= i && i + 1 < s.len() && #[trigger] s[i] == '.' && s[i + 1] == '.'
}

/// Whether `s` contains `".."` as a substring (`str::contains("..")`).
pub fn chars_has_double_dot(s: &Vec<char>) -> (r: bool)
    ensures
        r == has_double_dot(s@),
{
    let mut i: usize = 0;
    while i < s.len() && i + 1 < s.len()
        invariant
            forall|k: int| 0 <= k < i && k + 1 < s.len() ==> !(#[trigger] s@[k] == '.' && s@[k + 1] == '.'),
        decreases s.len() - i,
    {
        if s[i] == '.' && s[i + 1] == '.' {
            assert(s@[i as int] == '.');
            return true;
        }
        i = i + 1;
    }
    false
}

/// Whether `s` contains the character `c`.
pub fn chars_contains(s: &Vec<char>, c: char) -> (r: bool)
    ensures
        r == s@.contains(c),
{
    let mut i: usize = 0;
    while i < s.len()
        invariant
            i <= s.len(),
            forall|k: int| 0 <= k < i ==> s@[k] != c,
        decreases s.len() - i,
    {
        if s[i] == c {
            assert(s@[i as int] == c);
            return true;
        }
        i = i + 1;
    }
    false
}

/// The subrange `[from, to)` of `v`, as a new vector.
pub fn sub_chars(v: &Vec<char>, from: usize, to: usize) -> (r: Vec<char>)
    requires
        from <= to <= v.len(),
    ensures
        r@ == v@.subrange(from as int, to as int),
{
    let mut r: Vec<char> = Vec::new();
    let mut i = from;
    while i < to
        invariant
            from <= i <= to,
            to <= v.len(),
            r@ == v@.subrange(from as int, i as int),
        decreases to - i,
    {
        r.push(v[i]);
        i = i + 1;
    }
    r
}

/// Concatenation of two character vectors.
pub fn concat_chars(a: &Vec<char>, b: &Vec<char>) -> (r: Vec<char>)
    ensures
        r@ == a@ + b@,
{
    let mut r: Vec<char> = Vec::new();
    let mut i: usize = 0;
    while i < a.len()
        invariant
            i <= a.len(),
            r@ == a@.take(i as int),
        decreases a.len() - i,
    {
        r.push(a[i]);
        i = i + 1;
    }
    let mut j: usize = 0;
    while j < b.len()
        invariant
            j <= b.len(),
            r@ == a@ + b@.take(j as int),
        decreases b.len() - j,
    {
        r.push(b[j]);
        j = j + 1;
    }
    r
}


/// `s` without its leading run of `c`.
pub open spec fn trim_start_char(s: Seq<char>, c: char) -> Seq<char>
    decreases s.len(),
{
    if s.len() > 0 && s[0] == c { trim_start_char(s.drop_first(), c) } else { s }
}

/// `s` without its trailing run of `c`.
pub open spec fn trim_end_char(s: Seq<char>, c: char) -> Seq<char>
    decreases s.len(),
{
    if s.len() > 0 && s.last() == c { trim_end_char(s.drop_last(), c) } else { s }
}

/// How many times `c` occurs in `s`.
pub open spec fn count_char(s: Seq<char>, c: char) -> nat
    decreases s.len(),
{
    if s.len() == 0 {
        0
    } else {
        count_char(s.drop_last(), c) + (if s.last() == c { 1nat } else { 0nat })
    }
}

/// `s` with its leading run of `c` removed (`str::trim_start_matches`).
pub fn trim_start_chars(s: &Vec<char>, c: char) -> (r: Vec<char>)
    ensures
        r@ == trim_start_char(s@, c),
{
    let mut i: usize = 0;
    assert(s@.subrange(0, s.len() as int) =~= s@);
    while i < s.len() && s[i] == c
        invariant
            i <= s.len(),
            trim_start_char(s@, c) == trim_start_char(s@.subrange(i as int, s.len() as int), c),
        decreases s.len() - i,
    {
        assert(s@.subrange(i as int, s.len() as int).drop_first() =~= s@.subrange(i + 1, s.len() as int));
        i = i + 1;
    }
    sub_chars(s, i, s.len())
}

/// `s` with its trailing run of `c` removed (`str::trim_end_matches`).
pub fn trim_end_chars(s: &Vec<char>, c: char) -> (r: Vec<char>)
    ensures
        r@ == trim_end_char(s@, c),
{
    let mut j: usize = s.len();
    assert(s@.subrange(0, s.len() as int) =~= s@);
    while j > 0 && s[j - 1] == c
        invariant
            j <= s.len(),
            trim_end_char(s@, c) == trim_end_char(s@.subrange(0, j as int), c),
        decreases j,
    {
        assert(s@.subrange(0, j as int).drop_last() =~= s@.subrange(0, j - 1));
        j = j - 1;
    }
    sub_chars(s, 0, j)
}

/// How many times `c` occurs in `s` (`str::matches(c).count()`).
pub fn count_chars(s: &Vec<char>, c: char) -> (n: usize)
    ensures
        n == count_char(s@, c),
{
    let mut n: usize = 0;
    let mut i: usize = 0;
    while i < s.len()
        invariant
            i <= s.len(),
            n == count_char(s@.take(i as int), c),
            n <= i,
        decreases s.len() - i,
    {
        assert(s@.take((i + 1) as int).drop_last() =~= s@.take(i as int));
        if s[i] == c {
            n = n + 1;
        }
        i = i + 1;
    }
    assert(s@.take(s.len() as int) =~= s@);
    n
}

/// Whether two strings hold the same characters.
pub fn str_eq(a: &str, b: &str) -> (r: bool)
    ensures
        r == (a@ == b@),
{
    let x = chars_of(a);
    let y = chars_of(b);
    chars_eq(&x, &y)
}

/// A copy of a string.
pub fn copy_str(s: &str) -> (r: String)
    ensures
        r@ == s@,
{
    let v = chars_of(s);
    string_of(&v)
}


/// `a` comes strictly before `b` in code point order (the order of Rust
/// strings).
pub open spec fn lex_lt(a: Seq<char>, b: Seq<char>) -> bool
    decreases a.len(),
{
    if a.len() == 0 {
        b.len() > 0
    } else if b.len() == 0 {
        false
    } else if a[0] != b[0] {
        a[0] < b[0]
    } else {
        lex_lt(a.drop_first(), b.drop_first())
    }
}

/// `lex_lt` is transitive.
pub proof fn lemma_lex_lt_transitive(a: Seq<char>, b: Seq<char>, c: Seq<char>)
    requires
        lex_lt(a, b),
        lex_lt(b, c),
    ensures
        lex_lt(a, c),
    decreases a.len(),
{
    if a.len() > 0 && b.len() > 0 && c.len() > 0 && a[0] == b[0] && b[0] == c[0] {
        lemma_lex_lt_transitive(a.drop_first(), b.drop_first(), c.drop_first());
    }
}

/// `lex_lt` is a strict total order: never both ways, and one way between
/// two different texts.
pub proof fn lemma_lex_lt_total(a: Seq<char>, b: Seq<char>)
    ensures
        !(lex_lt(a, b) && lex_lt(b, a)),
        a != b ==> (lex_lt(a, b) || lex_lt(b, a)),
        !lex_lt(a, a),
    decreases a.len(),
{
    if a.len() > 0 && b.len() > 0 && a[0] == b[0] {
        lemma_lex_lt_total(a.drop_first(), b.drop_first());
        if a.drop_first() == b.drop_first() {
            assert(a =~= seq![a[0]] + a.drop_first());
            assert(b =~= seq![b[0]] + b.drop_first());
        }
    }
    if a.len() == 0 && b.len() == 0 {
        assert(a =~= b);
    }
    if a.len() > 0 {
        lemma_lex_lt_total(a.drop_first(), a.drop_first());
    }
}

/// Read as "not after", `lex_lt` is transitive: when `b` is not before
/// `a`, nor `c` before `b`, then `c` is not before `a`.
pub proof fn lemma_lex_not_lt_transitive(a: Seq<char>, b: Seq<char>, c: Seq<char>)
    ensures
        (!lex_lt(b, a) && !lex_lt(c, b)) ==> !lex_lt(c, a),
{
    lemma_lex_lt_total(a, b);
    lemma_lex_lt_total(b, c);
    lemma_lex_lt_total(a, c);
    if !lex_lt(b, a) && !lex_lt(c, b) && lex_lt(c, a) {
        if a != b && b != c {
            lemma_lex_lt_transitive(a, b, c);
        }
    }
}

/// Whether `a` comes strictly before `b`.
pub fn chars_lt(a: &Vec<char>, b: &Vec<char>) -> (r: bool)
    ensures
        r == lex_lt(a@, b@),
{
    let mut i: usize = 0;
    assert(a@.subrange(0, a.len() as int) =~= a@);
    assert(b@.subrange(0, b.len() as int) =~= b@);
    while i < a.len() && i < b.len() && a[i] == b[i]
        invariant
            i <= a.len(),
            i <= b.len(),
            lex_lt(a@, b@) == lex_lt(a@.subrange(i as int, a.len() as int), b@.subrange(i as int, b.len() as int)),
        decreases a.len() - i,
    {
        assert(a@.subrange(i as int, a.len() as int).drop_first() =~= a@.subrange(i + 1, a.len() as int));
        assert(b@.subrange(i as int, b.len() as int).drop_first() =~= b@.subrange(i + 1, b.len() as int));
        i = i + 1;
    }
    if i == a.len() {
        i < b.len()
    } else if i == b.len() {
        false
    } else {
        assert(a@.subrange(i as int, a.len() as int)[0] == a@[i as int]);
        assert(b@.subrange(i as int, b.len() as int)[0] == b@[i as int]);
        a[i] < b[i]
    }
}

/// The lowercase form of a text, as `str::to_lowercase` gives it.
pub uninterp spec fn lowercase(s: Seq<char>) -> Seq<char>;

/// The text is all ASCII.
pub open spec fn all_ascii(s: Seq<char>) -> bool {
    forall|i: int| 0 <= i < s.len() ==> (s[i] as u32) < 128
}

/// ASCII `A`-`Z` made `a`-`z`, every other character kept.
pub open spec fn ascii_lower(s: Seq<char>) -> Seq<char> {
    Seq::new(s.len(), |i: int| if 65 <= (s[i] as u32) <= 90 { ((s[i] as u32) + 32) as char } else { s[i] })
}

/// `str::to_lowercase`: the Unicode lowercase form of the text. Claimed:
/// the result is the named function of the text, and of an ASCII text it
/// is the text with `A`-`Z` made `a`-`z` (Unicode lowercases no other
/// ASCII character).
#[verifier::external_body]
pub(crate) fn to_lowercase(s: &str) -> (r: String)
    ensures
        r@ == lowercase(s@),
        all_ascii(s@) ==> r@ == ascii_lower(s@),
{
    s.to_lowercase()
}

/// `w` occurs in `s` as a run of characters (`str::contains`).
pub open spec fn has_infix(s: Seq<char>, w: Seq<char>) -> bool {
    exists|i: int| 0 <= i && i + w.len() <= s.len() && #[trigger] s.subrange(i, i + w.len()) == w
}

/// Whether `w` occurs in `s` as a run of characters.
pub fn chars_has_infix(s: &Vec<char>, w: &Vec<char>) -> (r: bool)
    ensures
        r == has_infix(s@, w@),
{
    if w.len() > s.len() {
        return false;
    }
    let last = s.len() - w.len();
    let mut i: usize = 0;
    while i <= last
        invariant
            w.len() <= s.len(),
            last == s.len() - w.len(),
            i <= last + 1,
            forall|k: int| 0 <= k < i ==> #[trigger] s@.subrange(k, k + w@.len()) != w@,
        decreases last + 1 - i,
    {
        let mut j: usize = 0;
        while j < w.len() && s[i + j] == w[j]
            invariant
                i <= last,
                last == s.len() - w.len(),
                j <= w.len(),
                forall|t: int| 0 <= t < j ==> s@[i + t] == w@[t],
            decreases w.len() - j,
        {
            j = j + 1;
        }
        if j == w.len() {
            assert(s@.subrange(i as int, i + w@.len()) =~= w@);
            return true;
        }
        assert(s@.subrange(i as int, i + w@.len())[j as int] != w@[j as int]);
        i = i + 1;
    }
    false
}

/// `s` with each occurrence of `from` replaced by `to`, left to right,
/// occurrences not overlapping (`str::replace`, for a non-empty `from`).
pub open spec fn replaced(s: Seq<char>, from: Seq<char>, to: Seq<char>) -> Seq<char>
    recommends
        from.len() > 0,
    decreases s.len(),
{
    if s.len() == 0 || from.len() == 0 {
        s
    } else if from.len() <= s.len() && s.subrange(0, from.len() as int) == from {
        to + replaced(s.subrange(from.len() as int, s.len() as int), from, to)
    } else {
        seq![s[0]] + replaced(s.drop_first(), from, to)
    }
}

/// Whether `w` stands in `s` at position `i`.
pub fn matches_at(s: &Vec<char>, i: usize, w: &Vec<char>) -> (r: bool)
    requires
        i <= s.len(),
    ensures
        r == (w@.len() <= s@.len() - i && s@.subrange(i as int, i + w@.len()) == w@),
{
    if w.len() > s.len() - i {
        return false;
    }
    let mut j: usize = 0;
    while j < w.len()
        invariant
            i + w.len() <= s.len(),
            j <= w.len(),
            forall|t: int| 0 <= t < j ==> s@[i + t] == w@[t],
        decreases w.len() - j,
    {
        if s[i + j] != w[j] {
            assert(s@.subrange(i as int, i + w@.len())[j as int] != w@[j as int]);
            return false;
        }
        j = j + 1;
    }
    assert(s@.subrange(i as int, i + w@.len()) =~= w@);
    true
}

/// `s` with each occurrence of `from` replaced by `to` (`str::replace`).
pub fn replace_text(s: &Vec<char>, from: &Vec<char>, to: &Vec<char>) -> (r: Vec<char>)
    requires
        from.len() > 0,
    ensures
        r@ == replaced(s@, from@, to@),
{
    let mut out: Vec<char> = Vec::new();
    let mut i: usize = 0;
    assert(s@.subrange(0, s.len() as int) =~= s@);
    while i < s.len()
        invariant
            i <= s.len(),
            from@.len() > 0,
            out@ + replaced(s@.subrange(i as int, s.len() as int), from@, to@) == replaced(s@, from@, to@),
        decreases s.len() - i,
    {
        let ghost rest = s@.subrange(i as int, s.len() as int);
        let hit = matches_at(s, i, from);
        if hit {
            assert(rest.subrange(0, from@.len() as int) =~= s@.subrange(i as int, i + from@.len()));
            assert(rest.subrange(from@.len() as int, rest.len() as int) =~= s@.subrange(i + from@.len(), s.len() as int));
            let ghost before = out@;
            let mut k: usize = 0;
            while k < to.len()
                invariant
                    k <= to.len(),
                    out@ == before + to@.take(k as int),
                decreases to.len() - k,
            {
                out.push(to[k]);
                assert(before + to@.take(k + 1) =~= (before + to@.take(k as int)).push(to@[k as int]));
                k = k + 1;
            }
            assert(to@.take(to.len() as int) =~= to@);
            assert(out@ + replaced(s@.subrange(i + from@.len(), s.len() as int), from@, to@)
                =~= before + (to@ + replaced(s@.subrange(i + from@.len(), s.len() as int), from@, to@)));
            i = i + from.len();
        } else {
            assert(!(from@.len() <= rest.len() && rest.subrange(0, from@.len() as int) == from@)) by {
                if from@.len() <= rest.len() && rest.subrange(0, from@.len() as int) == from@ {
                    assert(rest.subrange(0, from@.len() as int) =~= s@.subrange(i as int, i + from@.len()));
                }
            }
            assert(rest.drop_first() =~= s@.subrange(i + 1, s.len() as int));
            let ghost before = out@;
            out.push(s[i]);
            assert(out@ + replaced(s@.subrange(i + 1, s.len() as int), from@, to@)
                =~= before + (seq![s@[i as int]] + replaced(rest.drop_first(), from@, to@)));
            i = i + 1;
        }
    }
    assert(s@.subrange(s.len() as int, s.len() as int) =~= Seq::<char>::empty());
    assert(out@ + Seq::<char>::empty() =~= out@);
    out
}

/// The length in bytes of the UTF-8 form of a text (`str::len`).
pub open spec fn byte_len_of(s: Seq<char>) -> nat {
    vstd::utf8::encode_utf8(s).len()
}

/// What follows the first `n` bytes of the UTF-8 form of `s` (`&s[n..]`).
pub open spec fn byte_tail(s: Seq<char>, n: int) -> Seq<char> {
    let b = vstd::utf8::encode_utf8(s);
    vstd::utf8::decode_utf8(b.subrange(n, b.len() as int))
}

/// `&s[n..]` is allowed: `n` falls on a character boundary of the UTF-8
/// form of `s` (elsewhere the cut panics).
pub open spec fn cut_at_boundary(s: Seq<char>, n: int) -> bool {
    vstd::utf8::is_char_boundary(vstd::utf8::encode_utf8(s), n)
}

/// Whether cutting a text after its first `n` bytes splits no character
/// (`str::is_char_boundary`).
pub fn str_cut_ok(s: &str, n: usize) -> (r: bool)
    ensures
        r == cut_at_boundary(s@, n as int),
{
    s.is_char_boundary(n)
}

/// The length in bytes of a text's UTF-8 form.
pub fn str_byte_len(s: &str) -> (n: usize)
    ensures
        n == byte_len_of(s@),
{
    let b = s.as_bytes();
    b.len()
}

/// The text after the first `n` bytes of `s` (`&s[n..]`).
pub fn str_tail(s: &str, n: usize) -> (r: String)
    requires
        cut_at_boundary(s@, n as int),
    ensures
        r@ == byte_tail(s@, n as int),
{
    let (_, t) = s.split_at(n);
    proof {
        vstd::utf8::encode_utf8_decode_utf8(t@);
    }
    copy_str(t)
}

/// The UTF-8 form of a concatenation is the concatenation of the forms.
pub proof fn lemma_encode_append(a: Seq<char>, b: Seq<char>)
    ensures
        vstd::utf8::encode_utf8(a + b) == vstd::utf8::encode_utf8(a) + vstd::utf8::encode_utf8(b),
    decreases a.len(),
{
    if a.len() > 0 {
        assert((a + b).drop_first() =~= a.drop_first() + b);
        assert((a + b)[0] == a[0]);
        lemma_encode_append(a.drop_first(), b);
    } else {
        assert(a + b =~= b);
    }
}

proof fn lemma_boundary_after(m: Seq<char>, r: Seq<char>)
    ensures
        cut_at_boundary(m + r, byte_len_of(m) as int),
    decreases m.len(),
{
    let f = m + r;
    let bytes = vstd::utf8::encode_utf8(f);
    vstd::utf8::encode_utf8_valid_utf8(f);
    if m.len() > 0 {
        vstd::utf8::encode_utf8_first_scalar(f);
        assert(f[0] == m[0]);
        assert(f.drop_first() =~= m.drop_first() + r);
        lemma_encode_append(m.drop_first(), r);
        lemma_boundary_after(m.drop_first(), r);
        assert(vstd::utf8::pop_first_scalar(bytes) =~= vstd::utf8::encode_utf8(m.drop_first() + r));
    }
}

/// Cutting a text after the bytes of a prefix leaves the characters after
/// the prefix, and the cut falls on a character boundary.
pub proof fn lemma_prefix_cut(m: Seq<char>, f: Seq<char>)
    requires
        is_prefix(m, f),
    ensures
        cut_at_boundary(f, byte_len_of(m) as int),
        byte_tail(f, byte_len_of(m) as int) == f.subrange(m.len() as int, f.len() as int),
        byte_len_of(f) > byte_len_of(m) <==> f.len() > m.len(),
{
    let r = f.subrange(m.len() as int, f.len() as int);
    assert(f =~= m + r);
    lemma_encode_append(m, r);
    lemma_boundary_after(m, r);
    let b = vstd::utf8::encode_utf8(f);
    assert(b.subrange(byte_len_of(m) as int, b.len() as int) =~= vstd::utf8::encode_utf8(r));
    vstd::utf8::encode_utf8_decode_utf8(r);
    lemma_encode_empty_iff(r);
}

/// Two texts that both begin another are ordered alike by their lengths
/// in characters and in UTF-8 bytes.
pub proof fn lemma_prefixes_order_alike(a: Seq<char>, b: Seq<char>, f: Seq<char>)
    requires
        is_prefix(a, f),
        is_prefix(b, f),
    ensures
        a.len() < b.len() <==> byte_len_of(a) < byte_len_of(b),
        a.len() == b.len() <==> byte_len_of(a) == byte_len_of(b),
{
    if a.len() <= b.len() {
        lemma_shorter_prefix(a, b, f);
    } else {
        lemma_shorter_prefix(b, a, f);
    }
}

proof fn lemma_shorter_prefix(a: Seq<char>, b: Seq<char>, f: Seq<char>)
    requires
        is_prefix(a, f),
        is_prefix(b, f),
        a.len() <= b.len(),
    ensures
        a.len() < b.len() <==> byte_len_of(a) < byte_len_of(b),
        a.len() == b.len() <==> byte_len_of(a) == byte_len_of(b),
{
    let r = b.subrange(a.len() as int, b.len() as int);
    assert(b.subrange(0, a.len() as int) =~= f.subrange(0, a.len() as int));
    assert(b =~= a + r);
    lemma_encode_append(a, r);
    lemma_encode_empty_iff(r);
}

proof fn lemma_encode_empty_iff(r: Seq<char>)
    ensures
        vstd::utf8::encode_utf8(r).len() == 0 <==> r.len() == 0,
{
    if r.len() > 0 {
        vstd::utf8::encode_utf8_first_scalar(r);
        vstd::utf8::encode_utf8_valid_utf8(r);
    }
}

/// A character Unicode counts as white space (`char::is_whitespace`).
pub open spec fn is_white(c: char) -> bool {
    let v = c as u32;
    (9 <= v <= 13) || v == 32 || v == 0x85 || v == 0xA0 || v == 0x1680 || (0x2000 <= v <= 0x200A)
        || v == 0x2028 || v == 0x2029 || v == 0x202F || v == 0x205F || v == 0x3000
}

/// The text without its leading white space.
pub open spec fn trim_start_white(s: Seq<char>) -> Seq<char>
    decreases s.len(),
{
    if s.len() > 0 && is_white(s[0]) { trim_start_white(s.drop_first()) } else { s }
}

/// The text without its trailing white space.
pub open spec fn trim_end_white(s: Seq<char>) -> Seq<char>
    decreases s.len(),
{
    if s.len() > 0 && is_white(s.last()) { trim_end_white(s.drop_last()) } else { s }
}

/// What `str::trim` leaves of a text: the text without leading and
/// trailing white space.
pub open spec fn trimmed(s: Seq<char>) -> Seq<char> {
    trim_end_white(trim_start_white(s))
}

/// `str::trim`. Claimed: the text without leading and trailing white space
/// (the `White_Space` characters of Unicode).
#[verifier::external_body]
pub(crate) fn trim_text(s: &str) -> (r: String)
    ensures
        r@ == trimmed(s@),
{
    s.trim().to_string()
}


/// The pieces of `s` between occurrences of `sep`, in order (`str::split`:
/// one piece when `sep` does not occur, empty pieces kept).
pub open spec fn pieces(s: Seq<char>, sep: char) -> Seq<Seq<char>>
    decreases s.len(),
{
    if s.len() == 0 {
        seq![Seq::empty()]
    } else {
        let p = pieces(s.drop_last(), sep);
        if s.last() == sep {
            p.push(Seq::empty())
        } else {
            p.update(p.len() - 1, p.last().push(s.last()))
        }
    }
}

/// Splits a text at every `sep`.
pub fn split_text(s: &str, sep: char) -> (r: Vec<String>)
    ensures
        r@.map_values(|p: String| p@) == pieces(s@, sep),
{
    let cs = chars_of(s);
    let mut out: Vec<String> = Vec::new();
    let mut cur: Vec<char> = Vec::new();
    let mut i: usize = 0;
    assert(cs@.take(0) =~= Seq::<char>::empty());
    while i < cs.len()
        invariant
            i <= cs.len(),
            cs@ == s@,
            pieces(cs@.take(i as int), sep) == out@.map_values(|p: String| p@).push(cur@),
        decreases cs.len() - i,
    {
        assert(cs@.take((i + 1) as int).drop_last() =~= cs@.take(i as int));
        let c = cs[i];
        let ghost before = out@.map_values(|p: String| p@);
        if c == sep {
            let piece = string_of(&cur);
            out.push(piece);
            cur = Vec::new();
            assert(out@.map_values(|p: String| p@) =~= before.push(piece@));
        } else {
            cur.push(c);
        }
        assert(pieces(cs@.take((i + 1) as int), sep) =~= out@.map_values(|p: String| p@).push(cur@));
        i = i + 1;
    }
    assert(cs@.take(cs.len() as int) =~= cs@);
    let ghost before = out@.map_values(|p: String| p@);
    let last = string_of(&cur);
    out.push(last);
    assert(out@.map_values(|p: String| p@) =~= before.push(last@));
    out
}

} // verus!
