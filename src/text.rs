//! Text helpers shared by the catalog and the prompt builder.

use vstd::prelude::*;

verus! {

/// The lower-case form of a text, as `str::to_lowercase` computes it.
pub uninterp spec fn lower_of(s: Seq<char>) -> Seq<char>;

/// Relies on `str::to_lowercase`: the result depends on the characters alone,
/// and the empty text stays empty.
#[verifier::external_body]
pub(crate) fn lowercase(s: &str) -> (r: String)
    ensures
        r@ == lower_of(s@),
        s@.len() == 0 ==> r@.len() == 0,
{
    s.to_lowercase()
}

/// Lexicographic order on texts, character by character (the order of
/// `String`'s `Ord`, since UTF-8 keeps the order of scalar values).
pub open spec fn lex_le(a: Seq<char>, b: Seq<char>) -> bool
    decreases a.len(),
{
    if a.len() == 0 {
        true
    } else if b.len() == 0 {
        false
    } else if a[0] != b[0] {
        (a[0] as int) < (b[0] as int)
    } else {
        lex_le(a.drop_first(), b.drop_first())
    }
}

/// Any two texts are ordered one way or the other.
pub proof fn lemma_lex_le_total(a: Seq<char>, b: Seq<char>)
    ensures
        lex_le(a, b) || lex_le(b, a),
    decreases a.len(),
{
    if a.len() > 0 && b.len() > 0 {
        if a[0] == b[0] {
            lemma_lex_le_total(a.drop_first(), b.drop_first());
        } else {
            assert(a[0] as int != b[0] as int);
        }
    }
}

/// The order is transitive.
pub proof fn lemma_lex_le_transitive(a: Seq<char>, b: Seq<char>, c: Seq<char>)
    requires
        lex_le(a, b),
        lex_le(b, c),
    ensures
        lex_le(a, c),
    decreases a.len(),
{
    if a.len() > 0 && b.len() > 0 && c.len() > 0 && a[0] == b[0] && b[0] == c[0] {
        lemma_lex_le_transitive(a.drop_first(), b.drop_first(), c.drop_first());
    }
}

/// Compares two texts in `lex_le` order.
pub fn text_le(a: &str, b: &str) -> (r: bool)
    ensures
        r == lex_le(a@, b@),
{
    let n = a.unicode_len();
    let m = b.unicode_len();
    let mut i: usize = 0;
    proof {
        assert(a@.skip(0) =~= a@);
        assert(b@.skip(0) =~= b@);
    }
    while i < n && i < m
        invariant
            n == a@.len(),
            m == b@.len(),
            i <= n,
            i <= m,
            a@.subrange(0, i as int) == b@.subrange(0, i as int),
            lex_le(a@, b@) == lex_le(a@.skip(i as int), b@.skip(i as int)),
        decreases n - i,
    {
        let x = a.get_char(i);
        let y = b.get_char(i);
        if x != y {
            return (x as u32) < (y as u32);
        }
        proof {
            assert(a@.skip(i as int).drop_first() =~= a@.skip(i + 1));
            assert(b@.skip(i as int).drop_first() =~= b@.skip(i + 1));
            assert(a@.subrange(0, i + 1) =~= a@.subrange(0, i as int).push(x));
            assert(b@.subrange(0, i + 1) =~= b@.subrange(0, i as int).push(y));
        }
        i = i + 1;
    }
    i == n
}

/// `p` stands in `t` at position `i`.
pub open spec fn occurs_at(t: Seq<char>, p: Seq<char>, i: int) -> bool {
    0 <= i && i + p.len() <= t.len() && t.subrange(i, i + p.len()) == p
}

/// `p` stands somewhere in `t`.
pub open spec fn occurs_in(t: Seq<char>, p: Seq<char>) -> bool {
    exists|i: int| occurs_at(t, p, i)
}

/// `t` with every occurrence of `p`, taken from the left without overlap,
/// replaced by `m` (what `str::replace` computes for a non-empty `p`).
pub open spec fn replace_all(t: Seq<char>, p: Seq<char>, m: Seq<char>) -> Seq<char>
    decreases t.len(),
{
    if t.len() == 0 {
        Seq::empty()
    } else if p.len() > 0 && occurs_at(t, p, 0) {
        m + replace_all(t.skip(p.len() as int), p, m)
    } else {
        seq![t[0]] + replace_all(t.skip(1), p, m)
    }
}

/// Tells whether `p` stands in `s` at position `i`.
pub fn occurs_at_exec(s: &str, p: &str, i: usize) -> (r: bool)
    requires
        i <= s@.len(),
    ensures
        r == occurs_at(s@, p@, i as int),
{
    let n = s.unicode_len();
    let k = p.unicode_len();
    if k > n - i {
        return false;
    }
    let mut j: usize = 0;
    while j < k
        invariant
            n == s@.len(),
            k == p@.len(),
            i + k <= n,
            j <= k,
            s@.subrange(i as int, i + j) == p@.subrange(0, j as int),
        decreases k - j,
    {
        if s.get_char(i + j) != p.get_char(j) {
            assert(s@.subrange(i as int, i + k)[j as int] != p@[j as int]);
            return false;
        }
        assert(s@.subrange(i as int, i + j + 1) =~= s@.subrange(i as int, i + j).push(s@[i + j]));
        assert(p@.subrange(0, j + 1) =~= p@.subrange(0, j as int).push(p@[j as int]));
        j = j + 1;
    }
    assert(p@.subrange(0, k as int) =~= p@);
    true
}

/// Tells whether `p` stands anywhere in `s`.
pub fn contains_text(s: &str, p: &str) -> (r: bool)
    ensures
        r == occurs_in(s@, p@),
{
    let n = s.unicode_len();
    let mut i: usize = 0;
    while i < n
        invariant
            n == s@.len(),
            i <= n,
            forall|j: int| 0 <= j < i ==> !occurs_at(s@, p@, j),
        decreases n - i,
    {
        if occurs_at_exec(s, p, i) {
            return true;
        }
        i = i + 1;
    }
    occurs_at_exec(s, p, n)
}

/// `t` with every occurrence of the non-empty `p` replaced by `m`.
pub fn replace_text(t: &str, p: &str, m: &str) -> (r: String)
    requires
        p@.len() > 0,
    ensures
        r@ == replace_all(t@, p@, m@),
{
    let n = t.unicode_len();
    let k = p.unicode_len();
    let mut out = String::new();
    let mut i: usize = 0;
    proof {
        assert(t@.skip(0) =~= t@);
    }
    while i < n
        invariant
            n == t@.len(),
            k == p@.len(),
            k > 0,
            i <= n,
            out@ + replace_all(t@.skip(i as int), p@, m@) == replace_all(t@, p@, m@),
        decreases n - i,
    {
        let ghost rest = t@.skip(i as int);
        if occurs_at_exec(t, p, i) {
            proof {
                assert(rest.subrange(0, k as int) =~= t@.subrange(i as int, i + k));
                assert(rest.skip(k as int) =~= t@.skip(i + k));
                assert(out@ + m@ + replace_all(t@.skip(i + k), p@, m@) =~= out@ + (m@
                    + replace_all(rest.skip(k as int), p@, m@)));
            }
            out.append(m);
            i = i + k;
        } else {
            let one = t.substring_char(i, i + 1);
            proof {
                if occurs_at(rest, p@, 0) {
                    assert(rest.subrange(0, k as int) =~= t@.subrange(i as int, i + k));
                }
                assert(one@ =~= seq![rest[0]]);
                assert(rest.skip(1) =~= t@.skip(i + 1));
                assert(out@ + one@ + replace_all(t@.skip(i + 1), p@, m@) =~= out@ + (one@
                    + replace_all(rest.skip(1), p@, m@)));
            }
            out.append(one);
            i = i + 1;
        }
    }
    assert(t@.skip(n as int) =~= Seq::<char>::empty());
    assert(out@ + replace_all(t@.skip(n as int), p@, m@) =~= out@);
    out
}

} // verus!
