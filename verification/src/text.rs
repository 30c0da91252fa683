//! Character-level text primitives shared by the symbol, config and Telegram
//! modules. Every operation is specified over `Seq<char>` (the view of `str`
//! and `String`) and implemented on `Vec<char>` / slices.
use vstd::prelude::*;

verus! {

// ---------------------------------------------------------------------------
// Specifications
// ---------------------------------------------------------------------------

/// ASCII lower-casing of one character (non-ASCII characters are unchanged).
pub open spec fn ascii_lower(c: char) -> char {
    if 'A' <= c && c <= 'Z' {
        ((c as u32) + 32) as char
    } else {
        c
    }
}

/// ASCII upper-casing of one character (non-ASCII characters are unchanged).
pub open spec fn ascii_upper(c: char) -> char {
    if 'a' <= c && c <= 'z' {
        ((c as u32) - 32) as char
    } else {
        c
    }
}

pub open spec fn lower_seq(s: Seq<char>) -> Seq<char> {
    Seq::new(s.len(), |i: int| ascii_lower(s[i]))
}

pub open spec fn upper_seq(s: Seq<char>) -> Seq<char> {
    Seq::new(s.len(), |i: int| ascii_upper(s[i]))
}

/// `str::eq_ignore_ascii_case`: same length and equal after ASCII lower-casing.
pub open spec fn eq_ignore_case(a: Seq<char>, b: Seq<char>) -> bool {
    lower_seq(a) == lower_seq(b)
}

/// `char::is_whitespace`: the Unicode `White_Space` property.
pub open spec fn is_ws(c: char) -> bool {
    ||| ('\u{9}' <= c && c <= '\u{d}')
    ||| c == ' '
    ||| c == '\u{85}'
    ||| c == '\u{a0}'
    ||| c == '\u{1680}'
    ||| ('\u{2000}' <= c && c <= '\u{200a}')
    ||| c == '\u{2028}'
    ||| c == '\u{2029}'
    ||| c == '\u{202f}'
    ||| c == '\u{205f}'
    ||| c == '\u{3000}'
}

/// Leading whitespace removed.
pub open spec fn trim_start(s: Seq<char>) -> Seq<char>
    decreases s.len(),
{
    if s.len() > 0 && is_ws(s[0]) {
        trim_start(s.drop_first())
    } else {
        s
    }
}

/// Trailing whitespace removed.
pub open spec fn trim_end(s: Seq<char>) -> Seq<char>
    decreases s.len(),
{
    if s.len() > 0 && is_ws(s.last()) {
        trim_end(s.drop_last())
    } else {
        s
    }
}

/// `str::trim`.
pub open spec fn trim(s: Seq<char>) -> Seq<char> {
    trim_end(trim_start(s))
}

pub open spec fn has_prefix(s: Seq<char>, p: Seq<char>) -> bool {
    p.len() <= s.len() && s.subrange(0, p.len() as int) == p
}

pub open spec fn has_suffix(s: Seq<char>, p: Seq<char>) -> bool {
    p.len() <= s.len() && s.subrange(s.len() - p.len(), s.len() as int) == p
}

/// `str::strip_suffix` when the suffix is present, otherwise the input.
pub open spec fn strip_or(s: Seq<char>, suffix: Seq<char>) -> Seq<char> {
    if has_suffix(s, suffix) {
        s.subrange(0, s.len() - suffix.len())
    } else {
        s
    }
}

/// `p` occurs in `s` starting at character index `i`.
pub open spec fn occurs_at(s: Seq<char>, p: Seq<char>, i: int) -> bool {
    0 <= i && i + p.len() <= s.len() && s.subrange(i, i + p.len()) == p
}

/// `str::contains` with a string pattern.
pub open spec fn contains_seq(s: Seq<char>, p: Seq<char>) -> bool {
    exists|i: int| occurs_at(s, p, i)
}

/// `str::replace`: every non-overlapping occurrence of a non-empty `from`,
/// scanning left to right, is replaced by `to`.
pub open spec fn replace_nonempty(s: Seq<char>, from: Seq<char>, to: Seq<char>) -> Seq<char>
    recommends
        from.len() > 0,
    decreases s.len(),
{
    if s.len() == 0 || from.len() == 0 {
        s
    } else if has_prefix(s, from) {
        to + replace_nonempty(s.subrange(from.len() as int, s.len() as int), from, to)
    } else {
        seq![s[0]] + replace_nonempty(s.drop_first(), from, to)
    }
}

/// `str::replace` with an empty pattern: `to` is inserted before every
/// character and once at the end.
pub open spec fn replace_empty(s: Seq<char>, to: Seq<char>) -> Seq<char>
    decreases s.len(),
{
    if s.len() == 0 {
        to
    } else {
        to + seq![s[0]] + replace_empty(s.drop_first(), to)
    }
}

/// `str::replace`.
pub open spec fn replace(s: Seq<char>, from: Seq<char>, to: Seq<char>) -> Seq<char> {
    if from.len() == 0 {
        replace_empty(s, to)
    } else {
        replace_nonempty(s, from, to)
    }
}

/// Characters of `s` before the first `sep` (all of `s` when absent):
/// the first item of `str::split(sep)`.
pub open spec fn before_char(s: Seq<char>, sep: char) -> Seq<char>
    decreases s.len(),
{
    if s.len() == 0 {
        s
    } else if s[0] == sep {
        Seq::empty()
    } else {
        seq![s[0]] + before_char(s.drop_first(), sep)
    }
}

// ---------------------------------------------------------------------------
// Lemmas
// ---------------------------------------------------------------------------

proof fn lemma_trim_start_at(s: Seq<char>, k: int)
    requires
        0 <= k <= s.len(),
        forall|j: int| 0 <= j < k ==> is_ws(#[trigger] s[j]),
        k == s.len() || !is_ws(s[k]),
    ensures
        trim_start(s) == s.subrange(k, s.len() as int),
    decreases k,
{
    if k == 0 {
        assert(s.subrange(0, s.len() as int) =~= s);
    } else {
        let t = s.drop_first();
        assert forall|j: int| 0 <= j < k - 1 implies is_ws(#[trigger] t[j]) by {
            assert(t[j] == s[j + 1]);
        }
        lemma_trim_start_at(t, k - 1);
        assert(t.subrange(k - 1, t.len() as int) =~= s.subrange(k, s.len() as int));
    }
}

proof fn lemma_trim_end_at(s: Seq<char>, k: int)
    requires
        0 <= k <= s.len(),
        forall|j: int| k <= j < s.len() ==> is_ws(#[trigger] s[j]),
        k == 0 || !is_ws(s[k - 1]),
    ensures
        trim_end(s) == s.subrange(0, k),
    decreases s.len() - k,
{
    if k == s.len() {
        assert(s.subrange(0, s.len() as int) =~= s);
    } else {
        let t = s.drop_last();
        assert forall|j: int| k <= j < t.len() implies is_ws(#[trigger] t[j]) by {
            assert(t[j] == s[j]);
        }
        lemma_trim_end_at(t, k);
        assert(t.subrange(0, k) =~= s.subrange(0, k));
    }
}

/// What `trim_start` leaves is empty or starts with a non-space.
proof fn lemma_trim_start_shape(s: Seq<char>)
    ensures
        trim_start(s).len() == 0 || !is_ws(trim_start(s)[0]),
    decreases s.len(),
{
    if s.len() > 0 && is_ws(s[0]) {
        lemma_trim_start_shape(s.drop_first());
    }
}

/// `trim_end` keeps a prefix, which is empty or ends with a non-space.
proof fn lemma_trim_end_shape(s: Seq<char>)
    ensures
        trim_end(s).len() <= s.len(),
        trim_end(s) == s.subrange(0, trim_end(s).len() as int),
        trim_end(s).len() == 0 || !is_ws(trim_end(s).last()),
    decreases s.len(),
{
    if s.len() > 0 && is_ws(s.last()) {
        lemma_trim_end_shape(s.drop_last());
        assert(s.drop_last().subrange(0, trim_end(s).len() as int) =~= s.subrange(
            0,
            trim_end(s).len() as int,
        ));
    } else {
        assert(s.subrange(0, s.len() as int) =~= s);
    }
}

/// Trimming is idempotent: a trimmed string neither starts nor ends with
/// whitespace, and trimming it again changes nothing.
pub proof fn lemma_trim_idempotent(s: Seq<char>)
    ensures
        trim(trim(s)) == trim(s),
        trim(s).len() == 0 || (!is_ws(trim(s)[0]) && !is_ws(trim(s).last())),
{
    let a = trim_start(s);
    let r = trim_end(a);
    lemma_trim_start_shape(s);
    lemma_trim_end_shape(a);
    if r.len() > 0 {
        assert(r[0] == a[0]);
    }
    assert(trim_start(r) == r);
    assert(trim_end(r) == r);
}

pub open spec fn all_ws(w: Seq<char>) -> bool {
    forall|j: int| 0 <= j < w.len() ==> is_ws(#[trigger] w[j])
}

proof fn lemma_trim_start_ws_prefix(l: Seq<char>, p: Seq<char>)
    requires
        all_ws(l),
    ensures
        trim_start(l + p) == trim_start(p),
    decreases l.len(),
{
    if l.len() == 0 {
        assert(l + p =~= p);
    } else {
        assert((l + p)[0] == l[0]);
        assert((l + p).drop_first() =~= l.drop_first() + p);
        assert(all_ws(l.drop_first())) by {
            assert forall|j: int| 0 <= j < l.drop_first().len() implies is_ws(
                #[trigger] l.drop_first()[j],
            ) by {
                assert(l.drop_first()[j] == l[j + 1]);
            }
        }
        lemma_trim_start_ws_prefix(l.drop_first(), p);
    }
}

proof fn lemma_trim_start_ws_suffix(p: Seq<char>, r: Seq<char>)
    requires
        all_ws(r),
    ensures
        trim_start(p).len() == 0 ==> trim_start(p + r).len() == 0,
        trim_start(p).len() > 0 ==> trim_start(p + r) == trim_start(p) + r,
    decreases p.len(),
{
    if p.len() == 0 {
        assert(p + r =~= r);
        assert(r + Seq::<char>::empty() =~= r);
        lemma_trim_start_ws_prefix(r, Seq::<char>::empty());
    } else if is_ws(p[0]) {
        assert((p + r)[0] == p[0]);
        assert((p + r).drop_first() =~= p.drop_first() + r);
        lemma_trim_start_ws_suffix(p.drop_first(), r);
    } else {
        assert((p + r)[0] == p[0]);
    }
}

proof fn lemma_trim_end_ws_suffix(q: Seq<char>, r: Seq<char>)
    requires
        all_ws(r),
    ensures
        trim_end(q + r) == trim_end(q),
    decreases r.len(),
{
    if r.len() == 0 {
        assert(q + r =~= q);
    } else {
        assert((q + r).last() == r.last());
        assert((q + r).drop_last() =~= q + r.drop_last());
        assert(all_ws(r.drop_last())) by {
            assert forall|j: int| 0 <= j < r.drop_last().len() implies is_ws(
                #[trigger] r.drop_last()[j],
            ) by {
                assert(r.drop_last()[j] == r[j]);
            }
        }
        lemma_trim_end_ws_suffix(q, r.drop_last());
    }
}

/// Whitespace around a string does not change its trimmed form.
proof fn lemma_trim_ws_around(l: Seq<char>, p: Seq<char>, r: Seq<char>)
    requires
        all_ws(l),
        all_ws(r),
    ensures
        trim(l + p + r) == trim(p),
{
    assert(l + p + r =~= l + (p + r));
    lemma_trim_start_ws_prefix(l, p + r);
    lemma_trim_start_ws_suffix(p, r);
    if trim_start(p).len() > 0 {
        lemma_trim_end_ws_suffix(trim_start(p), r);
    } else {
        assert(trim_start(p + r) =~= trim_start(p));
    }
}

proof fn lemma_trim_start_split(s: Seq<char>) -> (l: Seq<char>)
    ensures
        all_ws(l),
        s == l + trim_start(s),
    decreases s.len(),
{
    if s.len() > 0 && is_ws(s[0]) {
        let l0 = lemma_trim_start_split(s.drop_first());
        let l = seq![s[0]] + l0;
        assert(trim_start(s) == trim_start(s.drop_first()));
        assert(s =~= seq![s[0]] + s.drop_first());
        assert(s =~= l + trim_start(s));
        assert forall|j: int| 0 <= j < l.len() implies is_ws(#[trigger] l[j]) by {
            if j > 0 {
                assert(l[j] == l0[j - 1]);
            }
        }
        l
    } else {
        assert(s =~= Seq::<char>::empty() + s);
        Seq::<char>::empty()
    }
}

proof fn lemma_trim_end_split(s: Seq<char>) -> (r: Seq<char>)
    ensures
        all_ws(r),
        s == trim_end(s) + r,
    decreases s.len(),
{
    if s.len() > 0 && is_ws(s.last()) {
        let r0 = lemma_trim_end_split(s.drop_last());
        let r = r0.push(s.last());
        assert(trim_end(s) == trim_end(s.drop_last()));
        assert(s =~= s.drop_last().push(s.last()));
        assert(s =~= trim_end(s) + r);
        assert forall|j: int| 0 <= j < r.len() implies is_ws(#[trigger] r[j]) by {
            if j < r0.len() {
                assert(r[j] == r0[j]);
            }
        }
        r
    } else {
        assert(s =~= s + Seq::<char>::empty());
        Seq::<char>::empty()
    }
}

/// A string is its trimmed form with whitespace before and after.
proof fn lemma_trim_decompose(s: Seq<char>) -> (lr: (Seq<char>, Seq<char>))
    ensures
        all_ws(lr.0),
        all_ws(lr.1),
        s == lr.0 + trim(s) + lr.1,
{
    let l = lemma_trim_start_split(s);
    let r = lemma_trim_end_split(trim_start(s));
    assert(s =~= l + trim(s) + r);
    (l, r)
}

/// Characters without the separator join the piece being collected.
proof fn lemma_split_absorb(w: Seq<char>, s: Seq<char>, sep: char, cur: Seq<char>)
    requires
        forall|j: int| 0 <= j < w.len() ==> #[trigger] w[j] != sep,
    ensures
        split_from(w + s, sep, cur) == split_from(s, sep, cur + w),
    decreases w.len(),
{
    if w.len() == 0 {
        assert(w + s =~= s);
        assert(cur + w =~= cur);
    } else {
        assert((w + s)[0] == w[0]);
        assert((w + s).drop_first() =~= w.drop_first() + s);
        assert forall|j: int| 0 <= j < w.drop_first().len() implies #[trigger] w.drop_first()[j]
            != sep by {
            assert(w.drop_first()[j] == w[j + 1]);
        }
        lemma_split_absorb(w.drop_first(), s, sep, cur.push(w[0]));
        assert(cur.push(w[0]) + w.drop_first() =~= cur + w);
    }
}

/// A collected prefix only lengthens the first piece.
proof fn lemma_split_cur(s: Seq<char>, sep: char, cur: Seq<char>)
    ensures
        split_from(s, sep, cur).len() == split_from(s, sep, Seq::empty()).len(),
        split_from(s, sep, cur).len() > 0,
        split_from(s, sep, cur)[0] == cur + split_from(s, sep, Seq::empty())[0],
        forall|j: int|
            1 <= j < split_from(s, sep, cur).len() ==> #[trigger] split_from(s, sep, cur)[j]
                == split_from(s, sep, Seq::empty())[j],
    decreases s.len(),
{
    if s.len() == 0 {
        assert(cur + Seq::<char>::empty() =~= cur);
    } else if s[0] == sep {
        assert(cur + Seq::<char>::empty() =~= cur);
    } else {
        let c = s[0];
        let e = Seq::<char>::empty();
        lemma_split_cur(s.drop_first(), sep, cur.push(c));
        lemma_split_cur(s.drop_first(), sep, e.push(c));
        let f = split_from(s.drop_first(), sep, e);
        assert(cur.push(c) + f[0] =~= cur + (e.push(c) + f[0]));
    }
}

/// Characters without the separator at the end only lengthen the last piece.
proof fn lemma_split_append(s: Seq<char>, w: Seq<char>, sep: char, cur: Seq<char>)
    requires
        forall|j: int| 0 <= j < w.len() ==> #[trigger] w[j] != sep,
    ensures
        split_from(s + w, sep, cur).len() == split_from(s, sep, cur).len(),
        split_from(s, sep, cur).len() > 0,
        split_from(s + w, sep, cur).last() == split_from(s, sep, cur).last() + w,
        forall|j: int|
            0 <= j < split_from(s, sep, cur).len() - 1 ==> #[trigger] split_from(s + w, sep, cur)[j]
                == split_from(s, sep, cur)[j],
    decreases s.len(),
{
    if s.len() == 0 {
        assert(s + w =~= w + Seq::<char>::empty());
        lemma_split_absorb(w, Seq::<char>::empty(), sep, cur);
    } else {
        assert((s + w)[0] == s[0]);
        assert((s + w).drop_first() =~= s.drop_first() + w);
        if s[0] == sep {
            lemma_split_append(s.drop_first(), w, sep, Seq::empty());
            let a = split_from(s.drop_first() + w, sep, Seq::empty());
            let b = split_from(s.drop_first(), sep, Seq::empty());
            assert(split_from(s + w, sep, cur) == seq![cur] + a);
            assert(split_from(s, sep, cur) == seq![cur] + b);
            assert forall|j: int| 0 <= j < split_from(s, sep, cur).len() - 1 implies #[trigger] split_from(
                s + w,
                sep,
                cur,
            )[j] == split_from(s, sep, cur)[j] by {
                if j > 0 {
                    assert((seq![cur] + a)[j] == a[j - 1]);
                    assert((seq![cur] + b)[j] == b[j - 1]);
                }
            }
        } else {
            lemma_split_append(s.drop_first(), w, sep, cur.push(s[0]));
        }
    }
}

/// Splitting a string or its trimmed form gives pieces with the same trimmed
/// forms, when the separator is not whitespace.
pub proof fn lemma_split_trimmed_pieces(raw: Seq<char>, sep: char)
    requires
        !is_ws(sep),
    ensures
        split_seq(raw, sep).len() == split_seq(trim(raw), sep).len(),
        forall|j: int|
            0 <= j < split_seq(raw, sep).len() ==> trim(#[trigger] split_seq(raw, sep)[j]) == trim(
                split_seq(trim(raw), sep)[j],
            ),
{
    let t = trim(raw);
    let (l, r) = lemma_trim_decompose(raw);
    let e = Seq::<char>::empty();
    assert forall|j: int| 0 <= j < l.len() implies #[trigger] l[j] != sep by {
        assert(is_ws(l[j]));
    }
    assert forall|j: int| 0 <= j < r.len() implies #[trigger] r[j] != sep by {
        assert(is_ws(r[j]));
    }
    assert(raw =~= l + (t + r));
    lemma_split_absorb(l, t + r, sep, e);
    assert(e + l =~= l);
    let a = split_from(t + r, sep, l);
    let b = split_from(t + r, sep, e);
    let q = split_from(t, sep, e);
    assert(split_seq(raw, sep) == a);
    lemma_split_cur(t + r, sep, l);
    lemma_split_append(t, r, sep, e);
    let n = q.len();
    assert(all_ws(e));
    assert forall|j: int| 0 <= j < a.len() implies trim(#[trigger] a[j]) == trim(q[j]) by {
        if j == 0 && n == 1 {
            assert(a[0] == l + (q[0] + r));
            assert(l + (q[0] + r) =~= l + q[0] + r);
            lemma_trim_ws_around(l, q[0], r);
        } else if j == 0 {
            assert(a[0] == l + q[0]);
            assert(l + q[0] =~= l + q[0] + e);
            lemma_trim_ws_around(l, q[0], e);
        } else if j == n - 1 {
            assert(a[j] == q[j] + r);
            assert(q[j] + r =~= e + q[j] + r);
            lemma_trim_ws_around(e, q[j], r);
        } else {
            assert(a[j] == q[j]);
        }
    }
}

pub open spec fn no_char(s: Seq<char>, c: char) -> bool {
    forall|k: int| 0 <= k < s.len() ==> #[trigger] s[k] != c
}

/// The output of a replacement agrees with its input on the first `n`
/// characters, unless a replacement starts before `n`.
proof fn lemma_replace_prefix(s: Seq<char>, from: Seq<char>, to: Seq<char>, n: int)
    requires
        from.len() > 0,
        to.len() > 0,
        0 <= n <= replace_nonempty(s, from, to).len(),
    ensures
        (n <= s.len() && replace_nonempty(s, from, to).subrange(0, n) == s.subrange(0, n)) || exists|
            k: int,
        | 0 <= k < n && #[trigger] replace_nonempty(s, from, to)[k] == to[0],
    decreases s.len(),
{
    let out = replace_nonempty(s, from, to);
    if n == 0 {
        assert(out.subrange(0, 0) =~= s.subrange(0, 0));
    } else if s.len() == 0 {
    } else if has_prefix(s, from) {
        assert(out == to + replace_nonempty(s.subrange(from.len() as int, s.len() as int), from, to));
        assert(out[0] == to[0]);
    } else {
        let rest = replace_nonempty(s.drop_first(), from, to);
        assert(out == seq![s[0]] + rest);
        lemma_replace_prefix(s.drop_first(), from, to, n - 1);
        if exists|k: int| 0 <= k < n - 1 && #[trigger] rest[k] == to[0] {
            let k = choose|k: int| 0 <= k < n - 1 && #[trigger] rest[k] == to[0];
            assert(out[k + 1] == to[0]);
        } else {
            assert forall|k: int| 0 <= k < n implies #[trigger] out.subrange(0, n)[k] == s.subrange(
                0,
                n,
            )[k] by {
                if k > 0 {
                    assert(rest.subrange(0, n - 1)[k - 1] == s.drop_first().subrange(0, n - 1)[k
                        - 1]);
                }
            }
            assert(out.subrange(0, n) =~= s.subrange(0, n));
        }
    }
}

/// After every occurrence of `from` is replaced by `to`, `from` no longer
/// occurs, provided `from` holds neither the first nor the last character of
/// `to` and does not occur inside `to`.
pub proof fn lemma_replace_removes(s: Seq<char>, from: Seq<char>, to: Seq<char>)
    requires
        from.len() > 0,
        to.len() > 0,
        no_char(from, to[0]),
        no_char(from, to.last()),
        !contains_seq(to, from),
    ensures
        !contains_seq(replace_nonempty(s, from, to), from),
    decreases s.len(),
{
    let out = replace_nonempty(s, from, to);
    let m = from.len();
    if s.len() == 0 {
        if contains_seq(out, from) {
            let i = choose|i: int| occurs_at(out, from, i);
            assert(false);
        }
    } else if has_prefix(s, from) {
        let tail = s.subrange(m as int, s.len() as int);
        let rest = replace_nonempty(tail, from, to);
        lemma_replace_removes(tail, from, to);
        assert(out == to + rest);
        if contains_seq(out, from) {
            let i = choose|i: int| occurs_at(out, from, i);
            if i >= to.len() {
                assert(rest.subrange(i - to.len(), i - to.len() + m) =~= out.subrange(i, i + m));
                assert(occurs_at(rest, from, i - to.len()));
            } else if i + m >= to.len() {
                let k = to.len() - 1;
                assert(out[k] == to.last());
                assert(out.subrange(i, i + m)[k - i] == out[k]);
                assert(from[k - i] == to.last());
            } else {
                assert(to.subrange(i, i + m) =~= out.subrange(i, i + m));
                assert(occurs_at(to, from, i));
            }
        }
    } else {
        let rest = replace_nonempty(s.drop_first(), from, to);
        lemma_replace_removes(s.drop_first(), from, to);
        assert(out == seq![s[0]] + rest);
        if contains_seq(out, from) {
            let i = choose|i: int| occurs_at(out, from, i);
            if i >= 1 {
                assert(rest.subrange(i - 1, i - 1 + m) =~= out.subrange(i, i + m));
                assert(occurs_at(rest, from, i - 1));
            } else {
                lemma_replace_prefix(s, from, to, m as int);
                if exists|k: int| 0 <= k < m && #[trigger] out[k] == to[0] {
                    let k = choose|k: int| 0 <= k < m && #[trigger] out[k] == to[0];
                    assert(out.subrange(0, m as int)[k] == out[k]);
                    assert(from[k] == to[0]);
                } else {
                    assert(has_prefix(s, from));
                }
            }
        }
    }
}

/// Where `from` occurred, the replacement `to` occurs afterwards.
pub proof fn lemma_replace_leaves_mark(s: Seq<char>, from: Seq<char>, to: Seq<char>)
    requires
        from.len() > 0,
        contains_seq(s, from),
    ensures
        contains_seq(replace_nonempty(s, from, to), to),
    decreases s.len(),
{
    let out = replace_nonempty(s, from, to);
    let m = from.len();
    let i = choose|i: int| occurs_at(s, from, i);
    if has_prefix(s, from) {
        let rest = replace_nonempty(s.subrange(m as int, s.len() as int), from, to);
        assert(out == to + rest);
        assert(out.subrange(0, to.len() as int) =~= to);
        assert(occurs_at(out, to, 0));
    } else {
        if i == 0 {
            assert(has_prefix(s, from));
        }
        let t = s.drop_first();
        assert(t.subrange(i - 1, i - 1 + m) =~= s.subrange(i, i + m));
        assert(occurs_at(t, from, i - 1));
        lemma_replace_leaves_mark(t, from, to);
        let rest = replace_nonempty(t, from, to);
        assert(out == seq![s[0]] + rest);
        let j = choose|j: int| occurs_at(rest, to, j);
        assert(out.subrange(j + 1, j + 1 + to.len()) =~= rest.subrange(j, j + to.len()));
        assert(occurs_at(out, to, j + 1));
    }
}

pub(crate) proof fn lemma_before_char_at(s: Seq<char>, sep: char, k: int)
    requires
        0 <= k <= s.len(),
        forall|j: int| 0 <= j < k ==> #[trigger] s[j] != sep,
        k == s.len() || s[k] == sep,
    ensures
        before_char(s, sep) == s.subrange(0, k),
    decreases k,
{
    if k == 0 {
        if s.len() == 0 {
            assert(s.subrange(0, 0) =~= s);
        } else {
            assert(s.subrange(0, 0) =~= Seq::<char>::empty());
        }
    } else {
        let t = s.drop_first();
        assert forall|j: int| 0 <= j < k - 1 implies #[trigger] t[j] != sep by {
            assert(t[j] == s[j + 1]);
        }
        lemma_before_char_at(t, sep, k - 1);
        assert(seq![s[0]] + t.subrange(0, k - 1) =~= s.subrange(0, k));
    }
}

// ---------------------------------------------------------------------------
// Conversions
// ---------------------------------------------------------------------------

/// `String::push` (std): appends one character.
#[verifier::external_body]
pub(crate) fn push_char(s: &mut String, c: char)
    ensures
        final(s)@ == old(s)@.push(c),
{
    s.push(c);
}

/// The characters of a string slice.
pub fn to_chars(s: &str) -> (v: Vec<char>)
    ensures
        v@ == s@,
{
    let n = s.unicode_len();
    let mut v: Vec<char> = Vec::new();
    let mut i: usize = 0;
    while i < n
        invariant
            n == s@.len(),
            i <= n,
            v@ == s@.subrange(0, i as int),
        decreases n - i,
    {
        v.push(s.get_char(i));
        i = i + 1;
        assert(v@ =~= s@.subrange(0, i as int));
    }
    assert(s@.subrange(0, n as int) =~= s@);
    v
}

/// A `String` holding exactly the given characters.
pub fn from_chars(v: &[char]) -> (s: String)
    ensures
        s@ == v@,
{
    let mut s = String::new();
    let mut i: usize = 0;
    while i < v.len()
        invariant
            i <= v@.len(),
            s@ == v@.subrange(0, i as int),
        decreases v@.len() - i,
    {
        push_char(&mut s, v[i]);
        i = i + 1;
        assert(s@ =~= v@.subrange(0, i as int));
    }
    assert(v@.subrange(0, v@.len() as int) =~= v@);
    s
}

/// Characters `v[from..to]` as a `String`.
pub fn string_of_range(v: &[char], from: usize, to: usize) -> (s: String)
    requires
        from <= to <= v@.len(),
    ensures
        s@ == v@.subrange(from as int, to as int),
{
    let mut s = String::new();
    let mut i: usize = from;
    while i < to
        invariant
            from <= i <= to <= v@.len(),
            s@ == v@.subrange(from as int, i as int),
        decreases to - i,
    {
        push_char(&mut s, v[i]);
        i = i + 1;
        assert(s@ =~= v@.subrange(from as int, i as int));
    }
    s
}

/// Owned copy of a string slice.
pub fn owned(s: &str) -> (r: String)
    ensures
        r@ == s@,
{
    s.to_owned()
}

/// Concatenation of two slices into a new `String`.
pub fn concat2(a: &str, b: &str) -> (r: String)
    ensures
        r@ == a@ + b@,
{
    let mut r = a.to_owned();
    r.append(b);
    r
}

/// Concatenation of three slices into a new `String`.
pub fn concat3(a: &str, b: &str, c: &str) -> (r: String)
    ensures
        r@ == a@ + b@ + c@,
{
    let mut r = a.to_owned();
    r.append(b);
    r.append(c);
    r
}

// ---------------------------------------------------------------------------
// Comparisons
// ---------------------------------------------------------------------------

/// Character-wise equality of two slices.
pub fn chars_eq(a: &[char], b: &[char]) -> (r: bool)
    ensures
        r == (a@ == b@),
{
    if a.len() != b.len() {
        return false;
    }
    let mut i: usize = 0;
    while i < a.len()
        invariant
            a@.len() == b@.len(),
            i <= a@.len(),
            forall|j: int| 0 <= j < i ==> a@[j] == b@[j],
        decreases a@.len() - i,
    {
        if a[i] != b[i] {
            return false;
        }
        i = i + 1;
    }
    assert(a@ =~= b@);
    true
}

/// Equality of two string slices.
pub fn str_eq(a: &str, b: &str) -> (r: bool)
    ensures
        r == (a@ == b@),
{
    let va = to_chars(a);
    let vb = to_chars(b);
    chars_eq(va.as_slice(), vb.as_slice())
}

/// Equality of a character slice with a string slice.
pub fn eq_lit(a: &[char], lit: &str) -> (r: bool)
    ensures
        r == (a@ == lit@),
{
    let vb = to_chars(lit);
    chars_eq(a, vb.as_slice())
}

/// ASCII lower-casing of one character.
pub fn lower_char(c: char) -> (r: char)
    ensures
        r == ascii_lower(c),
{
    if 'A' <= c && c <= 'Z' {
        let u = (c as u8) + 32;
        u as char
    } else {
        c
    }
}

/// ASCII upper-casing of one character.
pub fn upper_char(c: char) -> (r: char)
    ensures
        r == ascii_upper(c),
{
    if 'a' <= c && c <= 'z' {
        let u = (c as u8) - 32;
        u as char
    } else {
        c
    }
}

/// `str::to_ascii_uppercase` over characters.
pub fn to_upper(a: &[char]) -> (r: Vec<char>)
    ensures
        r@ == upper_seq(a@),
{
    let mut r: Vec<char> = Vec::new();
    let mut i: usize = 0;
    while i < a.len()
        invariant
            i <= a@.len(),
            r@ == upper_seq(a@).subrange(0, i as int),
        decreases a@.len() - i,
    {
        r.push(upper_char(a[i]));
        i = i + 1;
        assert(r@ =~= upper_seq(a@).subrange(0, i as int));
    }
    assert(upper_seq(a@).subrange(0, a@.len() as int) =~= upper_seq(a@));
    r
}

/// `str::eq_ignore_ascii_case` over characters.
pub fn eq_ignore_ascii_case(a: &[char], b: &[char]) -> (r: bool)
    ensures
        r == eq_ignore_case(a@, b@),
{
    if a.len() != b.len() {
        assert(lower_seq(a@).len() != lower_seq(b@).len());
        return false;
    }
    let mut i: usize = 0;
    while i < a.len()
        invariant
            a@.len() == b@.len(),
            i <= a@.len(),
            forall|j: int| 0 <= j < i ==> ascii_lower(a@[j]) == ascii_lower(b@[j]),
        decreases a@.len() - i,
    {
        if lower_char(a[i]) != lower_char(b[i]) {
            assert(lower_seq(a@)[i as int] != lower_seq(b@)[i as int]);
            return false;
        }
        i = i + 1;
    }
    assert(lower_seq(a@) =~= lower_seq(b@));
    true
}

/// `str::eq_ignore_ascii_case` against a string slice.
pub fn eq_ignore_ascii_case_lit(a: &[char], lit: &str) -> (r: bool)
    ensures
        r == eq_ignore_case(a@, lit@),
{
    let vb = to_chars(lit);
    eq_ignore_ascii_case(a, vb.as_slice())
}

// ---------------------------------------------------------------------------
// Whitespace, prefixes, suffixes
// ---------------------------------------------------------------------------

/// `char::is_whitespace`.
pub fn is_whitespace(c: char) -> (r: bool)
    ensures
        r == is_ws(c),
{
    ('\u{9}' <= c && c <= '\u{d}') || c == ' ' || c == '\u{85}' || c == '\u{a0}'
        || c == '\u{1680}' || ('\u{2000}' <= c && c <= '\u{200a}') || c == '\u{2028}'
        || c == '\u{2029}' || c == '\u{202f}' || c == '\u{205f}' || c == '\u{3000}'
}

/// Bounds `(start, end)` of `str::trim` inside `a`.
pub fn trim_bounds(a: &[char]) -> (r: (usize, usize))
    ensures
        r.0 <= r.1 <= a@.len(),
        a@.subrange(r.0 as int, r.1 as int) == trim(a@),
{
    let n = a.len();
    let mut start: usize = 0;
    while start < n && is_whitespace(a[start])
        invariant
            n == a@.len(),
            start <= n,
            forall|j: int| 0 <= j < start ==> is_ws(#[trigger] a@[j]),
        decreases n - start,
    {
        start = start + 1;
    }
    proof {
        lemma_trim_start_at(a@, start as int);
    }
    let mut end: usize = n;
    while end > start && is_whitespace(a[end - 1])
        invariant
            n == a@.len(),
            start <= end <= n,
            forall|j: int| end <= j < n ==> is_ws(#[trigger] a@[j]),
        decreases end,
    {
        end = end - 1;
    }
    proof {
        let t = a@.subrange(start as int, n as int);
        assert forall|j: int| end - start <= j < t.len() implies is_ws(#[trigger] t[j]) by {
            assert(t[j] == a@[j + start]);
        }
        if end - start > 0 {
            assert(t[end - start - 1] == a@[end - 1]);
        }
        lemma_trim_end_at(t, end - start);
        assert(t.subrange(0, end - start) =~= a@.subrange(start as int, end as int));
    }
    (start, end)
}

/// `str::trim` as a new character vector.
pub fn trim_chars(a: &[char]) -> (r: Vec<char>)
    ensures
        r@ == trim(a@),
{
    let (s, e) = trim_bounds(a);
    let mut r: Vec<char> = Vec::new();
    let mut i = s;
    while i < e
        invariant
            s <= i <= e <= a@.len(),
            r@ == a@.subrange(s as int, i as int),
        decreases e - i,
    {
        r.push(a[i]);
        i = i + 1;
        assert(r@ =~= a@.subrange(s as int, i as int));
    }
    r
}

/// Whether `a` starts with `p`.
pub fn starts_with(a: &[char], p: &[char]) -> (r: bool)
    ensures
        r == has_prefix(a@, p@),
{
    if p.len() > a.len() {
        return false;
    }
    let mut i: usize = 0;
    while i < p.len()
        invariant
            p@.len() <= a@.len(),
            i <= p@.len(),
            forall|j: int| 0 <= j < i ==> a@[j] == p@[j],
        decreases p@.len() - i,
    {
        if a[i] != p[i] {
            assert(a@.subrange(0, p@.len() as int)[i as int] != p@[i as int]);
            return false;
        }
        i = i + 1;
    }
    assert(a@.subrange(0, p@.len() as int) =~= p@);
    true
}

/// Whether `p` occurs in `a` at index `at`.
pub fn matches_at(a: &[char], p: &[char], at: usize) -> (r: bool)
    ensures
        r == occurs_at(a@, p@, at as int),
{
    if at > a.len() || p.len() > a.len() - at {
        return false;
    }
    let mut i: usize = 0;
    while i < p.len()
        invariant
            at + p@.len() <= a@.len(),
            a@.len() == a.len(),
            i <= p@.len(),
            forall|j: int| 0 <= j < i ==> a@[at + j] == p@[j],
        decreases p@.len() - i,
    {
        if a[at + i] != p[i] {
            assert(a@.subrange(at as int, at + p@.len())[i as int] != p@[i as int]);
            return false;
        }
        i = i + 1;
    }
    assert(a@.subrange(at as int, at + p@.len()) =~= p@);
    true
}

/// Whether `a` ends with `p`.
pub fn ends_with(a: &[char], p: &[char]) -> (r: bool)
    ensures
        r == has_suffix(a@, p@),
{
    if p.len() > a.len() {
        return false;
    }
    matches_at(a, p, a.len() - p.len())
}

/// `str::strip_suffix(..).unwrap_or(..)`: length of the kept prefix.
pub fn strip_suffix_len(a: &[char], suffix: &str) -> (r: usize)
    ensures
        r <= a@.len(),
        a@.subrange(0, r as int) == strip_or(a@, suffix@),
{
    let p = to_chars(suffix);
    if ends_with(a, p.as_slice()) {
        a.len() - p.len()
    } else {
        assert(a@.subrange(0, a@.len() as int) =~= a@);
        a.len()
    }
}

/// `str::strip_suffix(..).unwrap_or(..)` as a new vector.
pub fn strip_suffix_or(a: &[char], suffix: &str) -> (r: Vec<char>)
    ensures
        r@ == strip_or(a@, suffix@),
{
    let k = strip_suffix_len(a, suffix);
    let mut r: Vec<char> = Vec::new();
    let mut i: usize = 0;
    while i < k
        invariant
            k <= a@.len(),
            i <= k,
            r@ == a@.subrange(0, i as int),
        decreases k - i,
    {
        r.push(a[i]);
        i = i + 1;
        assert(r@ =~= a@.subrange(0, i as int));
    }
    r
}

/// `str::contains(char)`.
pub fn contains_char(a: &[char], c: char) -> (r: bool)
    ensures
        r == a@.contains(c),
{
    let mut i: usize = 0;
    while i < a.len()
        invariant
            i <= a@.len(),
            forall|j: int| 0 <= j < i ==> a@[j] != c,
        decreases a@.len() - i,
    {
        if a[i] == c {
            return true;
        }
        i = i + 1;
    }
    false
}

/// First index at which `p` occurs in `a`.
pub fn find(a: &[char], p: &[char]) -> (r: Option<usize>)
    ensures
        match r {
            Some(i) => occurs_at(a@, p@, i as int) && forall|j: int|
                0 <= j < i ==> !occurs_at(a@, p@, j),
            None => !contains_seq(a@, p@),
        },
{
    if p.len() > a.len() {
        return None;
    }
    let last = a.len() - p.len();
    let mut i: usize = 0;
    loop
        invariant
            last + p@.len() == a@.len(),
            i <= last,
            forall|j: int| 0 <= j < i ==> !occurs_at(a@, p@, j),
        decreases last - i,
    {
        if matches_at(a, p, i) {
            return Some(i);
        }
        if i == last {
            assert forall|j: int| !occurs_at(a@, p@, j) by {
                if 0 <= j <= last {
                } else {
                }
            }
            return None;
        }
        i = i + 1;
    }
}

/// `str::contains(&str)`.
pub fn contains(a: &[char], p: &[char]) -> (r: bool)
    ensures
        r == contains_seq(a@, p@),
{
    match find(a, p) {
        Some(_) => true,
        None => false,
    }
}

/// Prefix of `a` before the first `sep`: `a.split(sep).next()`.
pub fn before(a: &[char], sep: char) -> (r: Vec<char>)
    ensures
        r@ == before_char(a@, sep),
{
    let mut r: Vec<char> = Vec::new();
    let mut i: usize = 0;
    while i < a.len() && a[i] != sep
        invariant
            i <= a@.len(),
            r@ == a@.subrange(0, i as int),
            forall|j: int| 0 <= j < i ==> #[trigger] a@[j] != sep,
        decreases a@.len() - i,
    {
        r.push(a[i]);
        i = i + 1;
        assert(r@ =~= a@.subrange(0, i as int));
    }
    proof {
        lemma_before_char_at(a@, sep, i as int);
    }
    r
}

// ---------------------------------------------------------------------------
// Replacement
// ---------------------------------------------------------------------------

proof fn lemma_replace_nonempty_step(s: Seq<char>, from: Seq<char>, to: Seq<char>, i: int)
    requires
        from.len() > 0,
        0 <= i < s.len(),
        !has_prefix(s.subrange(i, s.len() as int), from),
    ensures
        replace_nonempty(s.subrange(i, s.len() as int), from, to) == seq![s[i]]
            + replace_nonempty(s.subrange(i + 1, s.len() as int), from, to),
{
    let t = s.subrange(i, s.len() as int);
    assert(t.drop_first() =~= s.subrange(i + 1, s.len() as int));
}

proof fn lemma_replace_nonempty_hit(s: Seq<char>, from: Seq<char>, to: Seq<char>, i: int)
    requires
        from.len() > 0,
        occurs_at(s, from, i),
    ensures
        replace_nonempty(s.subrange(i, s.len() as int), from, to) == to + replace_nonempty(
            s.subrange(i + from.len(), s.len() as int),
            from,
            to,
        ),
{
    let t = s.subrange(i, s.len() as int);
    assert(t.subrange(0, from.len() as int) =~= s.subrange(i, i + from.len()));
    assert(t.subrange(from.len() as int, t.len() as int) =~= s.subrange(
        i + from.len(),
        s.len() as int,
    ));
}

/// `str::replace(from, to)` over characters.
pub fn replace_all(a: &[char], from: &[char], to: &[char]) -> (r: Vec<char>)
    ensures
        r@ == replace(a@, from@, to@),
{
    let mut r: Vec<char> = Vec::new();
    assert(a@.subrange(0, a@.len() as int) =~= a@);
    if from.len() == 0 {
        let mut i: usize = 0;
        while i < a.len()
            invariant
                i <= a@.len(),
                r@ + replace_empty(a@.subrange(i as int, a@.len() as int), to@) == replace_empty(
                    a@,
                    to@,
                ),
            decreases a@.len() - i,
        {
            proof {
                let t = a@.subrange(i as int, a@.len() as int);
                assert(t.drop_first() =~= a@.subrange(i + 1, a@.len() as int));
            }
            let ghost before = r@;
            let mut k: usize = 0;
            while k < to.len()
                invariant
                    k <= to@.len(),
                    r@ == before + to@.subrange(0, k as int),
                decreases to@.len() - k,
            {
                r.push(to[k]);
                k = k + 1;
                assert(r@ =~= before + to@.subrange(0, k as int));
            }
            assert(to@.subrange(0, to@.len() as int) =~= to@);
            r.push(a[i]);
            proof {
                let t = a@.subrange(i as int, a@.len() as int);
                let rest = a@.subrange(i + 1, a@.len() as int);
                assert(before + (to@ + seq![a@[i as int]] + replace_empty(rest, to@)) =~= r@
                    + replace_empty(rest, to@));
            }
            i = i + 1;
        }
        let ghost before = r@;
        let mut k: usize = 0;
        while k < to.len()
            invariant
                k <= to@.len(),
                r@ == before + to@.subrange(0, k as int),
            decreases to@.len() - k,
        {
            r.push(to[k]);
            k = k + 1;
            assert(r@ =~= before + to@.subrange(0, k as int));
        }
        assert(to@.subrange(0, to@.len() as int) =~= to@);
        assert(a@.subrange(a@.len() as int, a@.len() as int) =~= Seq::<char>::empty());
        return r;
    }
    let mut i: usize = 0;
    while i < a.len()
        invariant
            from@.len() > 0,
            i <= a@.len(),
            r@ + replace_nonempty(a@.subrange(i as int, a@.len() as int), from@, to@)
                == replace_nonempty(a@, from@, to@),
        decreases a@.len() - i,
    {
        if matches_at(a, from, i) {
            proof {
                lemma_replace_nonempty_hit(a@, from@, to@, i as int);
            }
            let ghost before = r@;
            let mut k: usize = 0;
            while k < to.len()
                invariant
                    k <= to@.len(),
                    r@ == before + to@.subrange(0, k as int),
                decreases to@.len() - k,
            {
                r.push(to[k]);
                k = k + 1;
                assert(r@ =~= before + to@.subrange(0, k as int));
            }
            assert(to@.subrange(0, to@.len() as int) =~= to@);
            proof {
                let rest = a@.subrange(i + from@.len(), a@.len() as int);
                assert(before + (to@ + replace_nonempty(rest, from@, to@)) =~= r@ + replace_nonempty(
                    rest,
                    from@,
                    to@,
                ));
            }
            i = i + from.len();
        } else {
            proof {
                let t = a@.subrange(i as int, a@.len() as int);
                if has_prefix(t, from@) {
                    assert(t.subrange(0, from@.len() as int) =~= a@.subrange(
                        i as int,
                        i + from@.len(),
                    ));
                }
                lemma_replace_nonempty_step(a@, from@, to@, i as int);
            }
            let ghost before = r@;
            r.push(a[i]);
            proof {
                let rest = a@.subrange(i + 1, a@.len() as int);
                assert(before + (seq![a@[i as int]] + replace_nonempty(rest, from@, to@)) =~= r@
                    + replace_nonempty(rest, from@, to@));
            }
            i = i + 1;
        }
    }
    assert(r@ + replace_nonempty(a@.subrange(i as int, a@.len() as int), from@, to@) =~= r@);
    assert(a@.subrange(0, a@.len() as int) =~= a@);
    r
}


// ---------------------------------------------------------------------------
// Lexicographic order (the `Ord` of `str`: UTF-8 bytes order as code points)
// ---------------------------------------------------------------------------

/// `a < b` in the lexicographic order of code points.
pub open spec fn lex_lt(a: Seq<char>, b: Seq<char>) -> bool
    decreases a.len(),
{
    if a.len() == 0 {
        b.len() > 0
    } else if b.len() == 0 {
        false
    } else if a[0] != b[0] {
        a[0] < b[0]
    } else {
        lex_lt(a.drop_first(), b.drop_first())
    }
}

/// No string sorts before itself.
pub proof fn lemma_lex_lt_irreflexive(a: Seq<char>)
    ensures
        !lex_lt(a, a),
    decreases a.len(),
{
    if a.len() > 0 {
        lemma_lex_lt_irreflexive(a.drop_first());
    }
}

/// The lexicographic order is transitive.
pub proof fn lemma_lex_lt_transitive(a: Seq<char>, b: Seq<char>, c: Seq<char>)
    requires
        lex_lt(a, b),
        lex_lt(b, c),
    ensures
        lex_lt(a, c),
    decreases a.len(),
{
    if a.len() > 0 && b.len() > 0 && c.len() > 0 {
        if a[0] == b[0] && b[0] == c[0] {
            lemma_lex_lt_transitive(a.drop_first(), b.drop_first(), c.drop_first());
        }
    }
}

/// Of two different strings one sorts before the other.
pub proof fn lemma_lex_lt_total(a: Seq<char>, b: Seq<char>)
    requires
        a != b,
    ensures
        lex_lt(a, b) || lex_lt(b, a),
    decreases a.len(),
{
    if a.len() > 0 && b.len() > 0 && a[0] == b[0] {
        if a.drop_first() == b.drop_first() {
            assert(a =~= seq![a[0]] + a.drop_first());
            assert(b =~= seq![b[0]] + b.drop_first());
        }
        lemma_lex_lt_total(a.drop_first(), b.drop_first());
    } else if a.len() == 0 && b.len() == 0 {
        assert(a =~= b);
    }
}

/// Two strings never sort before each other.
pub proof fn lemma_lex_lt_asymmetric(a: Seq<char>, b: Seq<char>)
    requires
        lex_lt(a, b),
    ensures
        !lex_lt(b, a),
{
    if lex_lt(b, a) {
        lemma_lex_lt_transitive(a, b, a);
        lemma_lex_lt_irreflexive(a);
    }
}

/// Lexicographic `a < b` of two character slices.
pub fn lex_less(a: &[char], b: &[char]) -> (r: bool)
    ensures
        r == lex_lt(a@, b@),
{
    let mut i: usize = 0;
    assert(a@.subrange(0, a@.len() as int) =~= a@);
    assert(b@.subrange(0, b@.len() as int) =~= b@);
    while i < a.len() && i < b.len()
        invariant
            i <= a@.len(),
            i <= b@.len(),
            forall|j: int| 0 <= j < i ==> a@[j] == b@[j],
            lex_lt(a@, b@) == lex_lt(a@.subrange(i as int, a@.len() as int), b@.subrange(
                i as int,
                b@.len() as int,
            )),
        decreases a@.len() - i,
    {
        if a[i] != b[i] {
            return a[i] < b[i];
        }
        proof {
            let sa = a@.subrange(i as int, a@.len() as int);
            let sb = b@.subrange(i as int, b@.len() as int);
            assert(sa.drop_first() =~= a@.subrange(i + 1, a@.len() as int));
            assert(sb.drop_first() =~= b@.subrange(i + 1, b@.len() as int));
        }
        i = i + 1;
    }
    i < b.len()
}

// ---------------------------------------------------------------------------
// Splitting on a separator
// ---------------------------------------------------------------------------

/// `str::split(sep)` with the current piece `cur` already collected.
pub open spec fn split_from(s: Seq<char>, sep: char, cur: Seq<char>) -> Seq<Seq<char>>
    decreases s.len(),
{
    if s.len() == 0 {
        seq![cur]
    } else if s[0] == sep {
        seq![cur] + split_from(s.drop_first(), sep, Seq::empty())
    } else {
        split_from(s.drop_first(), sep, cur.push(s[0]))
    }
}

/// The pieces of `str::split(sep)`, empty pieces included.
pub open spec fn split_seq(s: Seq<char>, sep: char) -> Seq<Seq<char>> {
    split_from(s, sep, Seq::empty())
}

/// Views of a vector of character vectors.
pub open spec fn views(v: Seq<Vec<char>>) -> Seq<Seq<char>> {
    Seq::new(v.len(), |i: int| v[i]@)
}

/// `str::split(sep)` over characters.
pub fn split_on(a: &[char], sep: char) -> (r: Vec<Vec<char>>)
    ensures
        views(r@) == split_seq(a@, sep),
{
    let mut parts: Vec<Vec<char>> = Vec::new();
    let mut cur: Vec<char> = Vec::new();
    let mut i: usize = 0;
    assert(a@.subrange(0, a@.len() as int) =~= a@);
    assert(views(parts@) =~= Seq::<Seq<char>>::empty());
    assert(cur@ =~= Seq::<char>::empty());
    while i < a.len()
        invariant
            i <= a@.len(),
            views(parts@) + split_from(a@.subrange(i as int, a@.len() as int), sep, cur@)
                == split_seq(a@, sep),
        decreases a@.len() - i,
    {
        let ghost rest = a@.subrange(i as int, a@.len() as int);
        assert(rest.drop_first() =~= a@.subrange(i + 1, a@.len() as int));
        if a[i] == sep {
            let ghost old_parts = views(parts@);
            let ghost old_cur = cur@;
            parts.push(cur);
            cur = Vec::new();
            assert(views(parts@) =~= old_parts.push(old_cur));
            assert(old_parts + (seq![old_cur] + split_from(rest.drop_first(), sep, Seq::empty()))
                =~= views(parts@) + split_from(rest.drop_first(), sep, Seq::empty()));
        } else {
            cur.push(a[i]);
        }
        i = i + 1;
    }
    let ghost old_parts = views(parts@);
    let ghost last = cur@;
    parts.push(cur);
    assert(views(parts@) =~= old_parts.push(last));
    assert(a@.subrange(a@.len() as int, a@.len() as int) =~= Seq::<char>::empty());
    parts
}


/// Characters of `s` before its first whitespace character: the first item
/// of `str::split_whitespace` when `s` starts with a non-space.
pub open spec fn before_ws(s: Seq<char>) -> Seq<char>
    decreases s.len(),
{
    if s.len() == 0 {
        s
    } else if is_ws(s[0]) {
        Seq::empty()
    } else {
        seq![s[0]] + before_ws(s.drop_first())
    }
}

proof fn lemma_before_ws_at(s: Seq<char>, k: int)
    requires
        0 <= k <= s.len(),
        forall|j: int| 0 <= j < k ==> !is_ws(#[trigger] s[j]),
        k == s.len() || is_ws(s[k]),
    ensures
        before_ws(s) == s.subrange(0, k),
    decreases k,
{
    if k == 0 {
        if s.len() > 0 {
            assert(is_ws(s[0]));
        }
        assert(s.subrange(0, 0) =~= Seq::<char>::empty());
    } else {
        let t = s.drop_first();
        assert forall|j: int| 0 <= j < k - 1 implies !is_ws(#[trigger] t[j]) by {
            assert(t[j] == s[j + 1]);
        }
        if k < s.len() {
            assert(t[k - 1] == s[k]);
        }
        lemma_before_ws_at(t, k - 1);
        assert(seq![s[0]] + t.subrange(0, k - 1) =~= s.subrange(0, k));
    }
}

proof fn lemma_before_ws_append_ws(a: Seq<char>, r: Seq<char>)
    requires
        all_ws(r),
    ensures
        before_ws(a + r) == before_ws(a),
    decreases a.len(),
{
    if a.len() == 0 {
        assert(a + r =~= r);
        if r.len() > 0 {
            assert(is_ws(r[0]));
        }
    } else {
        assert((a + r)[0] == a[0]);
        assert((a + r).drop_first() =~= a.drop_first() + r);
        lemma_before_ws_append_ws(a.drop_first(), r);
    }
}

/// The first word holds no whitespace, and taking it again changes nothing.
pub proof fn lemma_before_ws_word(s: Seq<char>)
    ensures
        forall|j: int| 0 <= j < before_ws(s).len() ==> !is_ws(#[trigger] before_ws(s)[j]),
        before_ws(before_ws(s)) == before_ws(s),
    decreases s.len(),
{
    if s.len() > 0 && !is_ws(s[0]) {
        let w = before_ws(s.drop_first());
        lemma_before_ws_word(s.drop_first());
        assert forall|j: int| 0 <= j < before_ws(s).len() implies !is_ws(#[trigger] before_ws(s)[j]) by {
            if j > 0 {
                assert(before_ws(s)[j] == w[j - 1]);
            }
        }
        let b = before_ws(s);
        assert(b[0] == s[0]);
        assert(b.drop_first() =~= w);
    }
}

/// The first word of `str::split_whitespace` is the first word of the
/// trimmed string, and it is empty exactly when the trimmed string is.
pub proof fn lemma_first_word(t: Seq<char>)
    ensures
        before_ws(trim(t)) == before_ws(trim_start(t)),
        before_ws(trim_start(t)).len() == 0 <==> trim(t).len() == 0,
{
    let r = lemma_trim_end_split(trim_start(t));
    lemma_before_ws_append_ws(trim(t), r);
    lemma_trim_idempotent(t);
}

/// Characters before the first whitespace character.
pub fn before_whitespace(a: &[char]) -> (r: Vec<char>)
    ensures
        r@ == before_ws(a@),
{
    let mut r: Vec<char> = Vec::new();
    let mut i: usize = 0;
    while i < a.len() && !is_whitespace(a[i])
        invariant
            i <= a@.len(),
            r@ == a@.subrange(0, i as int),
            forall|j: int| 0 <= j < i ==> !is_ws(#[trigger] a@[j]),
        decreases a@.len() - i,
    {
        r.push(a[i]);
        i = i + 1;
        assert(r@ =~= a@.subrange(0, i as int));
    }
    proof {
        lemma_before_ws_at(a@, i as int);
    }
    r
}

/// The first `n` characters of `s` when it is longer, else all of it.
pub open spec fn take_chars(s: Seq<char>, n: nat) -> Seq<char> {
    if s.len() <= n {
        s
    } else {
        s.subrange(0, n as int)
    }
}


/// A character that ends a URL path in an error text.
pub open spec fn is_stop(c: char) -> bool {
    c == ' ' || c == '"' || c == '\n' || c == '\r' || c == '?'
}

/// Index of the first stop character at or after `i`.
pub open spec fn first_stop_from(s: Seq<char>, i: int) -> Option<int>
    decreases s.len() - i,
{
    if i < 0 || i >= s.len() {
        None
    } else if is_stop(s[i]) {
        Some(i)
    } else {
        first_stop_from(s, i + 1)
    }
}

pub open spec fn first_stop_spec(s: Seq<char>) -> Option<int> {
    first_stop_from(s, 0)
}

/// A stop found at or after `i` lies inside the string.
pub proof fn lemma_first_stop_range(s: Seq<char>, i: int, k: int)
    requires
        first_stop_from(s, i) == Some(k),
    ensures
        i <= k < s.len(),
    decreases s.len() - i,
{
    if 0 <= i < s.len() && !is_stop(s[i]) {
        lemma_first_stop_range(s, i + 1, k);
    }
}

} // verus!
