//! Verified string utilities: substring containment, prefix test,
//! ASCII case-insensitive equality and lexicographic comparison,
//! plus the trusted Unicode lowercasing call.

use vstd::prelude::*;
use vstd::string::*;

verus! {

/// `pat` occurs in `text` as a contiguous substring.
pub open spec fn spec_contains(text: Seq<char>, pat: Seq<char>) -> bool {
    exists|i: int|
        0 <= i && i + pat.len() <= text.len() && #[trigger] text.subrange(i, i + pat.len() as int)
            == pat
}

/// `pre` is a prefix of `text`.
pub open spec fn spec_starts_with(text: Seq<char>, pre: Seq<char>) -> bool {
    pre.len() <= text.len() && text.subrange(0, pre.len() as int) == pre
}

/// ASCII uppercase letters map to lowercase; all other characters are unchanged.
pub open spec fn ascii_lower_char(c: char) -> char {
    if 65 <= c as u32 && c as u32 <= 90 {
        (((c as u32 + 32) as u8) as char)
    } else {
        c
    }
}

/// Character-wise ASCII case folding of a string.
pub open spec fn fold_ascii(s: Seq<char>) -> Seq<char> {
    s.map_values(|c: char| ascii_lower_char(c))
}

/// Lexicographic order on character sequences by Unicode scalar value
/// (for UTF-8 encoded strings this coincides with byte order).
pub open spec fn lex_le(a: Seq<char>, b: Seq<char>) -> bool
    decreases a.len(),
{
    if a.len() == 0 {
        true
    } else if b.len() == 0 {
        false
    } else if a[0] == b[0] {
        lex_le(a.drop_first(), b.drop_first())
    } else {
        (a[0] as int) < (b[0] as int)
    }
}

/// What `str::to_lowercase` returns: a function of the characters alone.
pub uninterp spec fn lower_of(s: Seq<char>) -> Seq<char>;

/// Relies on `str::to_lowercase`: the result depends on the characters alone.
#[verifier::external_body]
pub(crate) fn lowercase(s: &str) -> (r: String)
    ensures
        r@ == lower_of(s@),
{
    s.to_lowercase()
}

pub fn lower_ascii_char(c: char) -> (r: char)
    ensures
        r == ascii_lower_char(c),
{
    let u = c as u32;
    if 65 <= u && u <= 90 {
        ((u + 32) as u8) as char
    } else {
        c
    }
}

pub fn str_contains(text: &str, pat: &str) -> (r: bool)
    ensures
        r == spec_contains(text@, pat@),
{
    let n = text.unicode_len();
    let m = pat.unicode_len();
    if m > n {
        assert(!spec_contains(text@, pat@));
        return false;
    }
    let mut i: usize = 0;
    while i <= n - m
        invariant
            m <= n,
            i <= n - m + 1,
            n == text@.len(),
            m == pat@.len(),
            forall|k: int| 0 <= k < i ==> #[trigger] text@.subrange(k, k + m as int) != pat@,
        decreases n - m - i + 1,
    {
        let mut j: usize = 0;
        while j < m && text.get_char(i + j) == pat.get_char(j)
            invariant
                i + m <= n,
                n == text@.len(),
                m == pat@.len(),
                0 <= j <= m,
                forall|l: int| 0 <= l < j ==> text@[i + l] == pat@[l],
            decreases m - j,
        {
            j += 1;
        }
        if j == m {
            proof {
                assert(text@.subrange(i as int, i + m as int) =~= pat@);
            }
            return true;
        }
        proof {
            assert(text@.subrange(i as int, i + m as int)[j as int] == text@[i + j]);
            assert(text@.subrange(i as int, i + m as int) != pat@);
        }
        i += 1;
    }
    proof {
        assert forall|k: int| 0 <= k && k + m <= n implies #[trigger] text@.subrange(
            k,
            k + m as int,
        ) != pat@ by {
            assert(k < i);
        }
    }
    false
}

pub fn str_starts_with(text: &str, pre: &str) -> (r: bool)
    ensures
        r == spec_starts_with(text@, pre@),
{
    let n = text.unicode_len();
    let m = pre.unicode_len();
    if m > n {
        return false;
    }
    let mut j: usize = 0;
    while j < m && text.get_char(j) == pre.get_char(j)
        invariant
            m <= n,
            n == text@.len(),
            m == pre@.len(),
            0 <= j <= m,
            forall|l: int| 0 <= l < j ==> text@[l] == pre@[l],
        decreases m - j,
    {
        j += 1;
    }
    if j == m {
        proof {
            assert(text@.subrange(0, m as int) =~= pre@);
        }
        true
    } else {
        proof {
            assert(text@.subrange(0, m as int)[j as int] == text@[j as int]);
        }
        false
    }
}

/// Exact character-for-character string equality.
pub fn str_eq(a: &str, b: &str) -> (r: bool)
    ensures
        r == (a@ == b@),
{
    let n = a.unicode_len();
    let m = b.unicode_len();
    if n != m {
        return false;
    }
    let mut j: usize = 0;
    while j < n && a.get_char(j) == b.get_char(j)
        invariant
            n == a@.len(),
            n == b@.len(),
            0 <= j <= n,
            forall|l: int| 0 <= l < j ==> a@[l] == b@[l],
        decreases n - j,
    {
        j += 1;
    }
    if j == n {
        proof {
            assert(a@ =~= b@);
        }
        true
    } else {
        false
    }
}

/// ASCII case-insensitive string equality.
pub fn str_eq_ignore_ascii_case(a: &str, b: &str) -> (r: bool)
    ensures
        r == (fold_ascii(a@) == fold_ascii(b@)),
{
    let n = a.unicode_len();
    let m = b.unicode_len();
    if n != m {
        proof {
            assert(fold_ascii(a@).len() != fold_ascii(b@).len());
        }
        return false;
    }
    let mut j: usize = 0;
    while j < n && lower_ascii_char(a.get_char(j)) == lower_ascii_char(b.get_char(j))
        invariant
            n == a@.len(),
            n == b@.len(),
            0 <= j <= n,
            forall|l: int| 0 <= l < j ==> ascii_lower_char(a@[l]) == ascii_lower_char(b@[l]),
        decreases n - j,
    {
        j += 1;
    }
    if j == n {
        proof {
            assert(fold_ascii(a@) =~= fold_ascii(b@));
        }
        true
    } else {
        proof {
            assert(fold_ascii(a@)[j as int] != fold_ascii(b@)[j as int]);
        }
        false
    }
}

/// If the first `i` characters agree, the order is decided by the remainders.
proof fn lemma_lex_le_skip(a: Seq<char>, b: Seq<char>, i: int)
    requires
        0 <= i <= a.len(),
        i <= b.len(),
        forall|l: int| 0 <= l < i ==> a[l] == b[l],
    ensures
        lex_le(a, b) == lex_le(a.skip(i), b.skip(i)),
    decreases i,
{
    if i > 0 {
        assert(a.len() > 0 && b.len() > 0 && a[0] == b[0]);
        lemma_lex_le_skip(a.drop_first(), b.drop_first(), i - 1);
        assert(a.drop_first().skip(i - 1) =~= a.skip(i));
        assert(b.drop_first().skip(i - 1) =~= b.skip(i));
    } else {
        assert(a.skip(0) =~= a);
        assert(b.skip(0) =~= b);
    }
}

pub proof fn lemma_lex_le_total(a: Seq<char>, b: Seq<char>)
    ensures
        lex_le(a, b) || lex_le(b, a),
    decreases a.len(),
{
    if a.len() == 0 {
        assert(lex_le(a, b));
    } else if b.len() == 0 {
        assert(lex_le(b, a));
    } else if a[0] == b[0] {
        lemma_lex_le_total(a.drop_first(), b.drop_first());
    } else {
        assert(a[0] as int != b[0] as int);
        assert(lex_le(a, b) == ((a[0] as int) < (b[0] as int)));
        assert(lex_le(b, a) == ((b[0] as int) < (a[0] as int)));
    }
}

pub proof fn lemma_lex_le_antisymmetric(a: Seq<char>, b: Seq<char>)
    requires
        lex_le(a, b),
        lex_le(b, a),
    ensures
        a == b,
    decreases a.len(),
{
    if a.len() > 0 && b.len() > 0 && a[0] == b[0] {
        lemma_lex_le_antisymmetric(a.drop_first(), b.drop_first());
        assert(a =~= seq![a[0]] + a.drop_first());
        assert(b =~= seq![b[0]] + b.drop_first());
    } else {
        assert(a.len() == 0 && b.len() == 0);
        assert(a =~= b);
    }
}

pub proof fn lemma_lex_le_transitive(a: Seq<char>, b: Seq<char>, c: Seq<char>)
    requires
        lex_le(a, b),
        lex_le(b, c),
    ensures
        lex_le(a, c),
    decreases a.len(),
{
    if a.len() > 0 && b.len() > 0 && c.len() > 0 && a[0] == b[0] && b[0] == c[0] {
        lemma_lex_le_transitive(a.drop_first(), b.drop_first(), c.drop_first());
    }
}

pub fn str_le(a: &str, b: &str) -> (r: bool)
    ensures
        r == lex_le(a@, b@),
{
    let n = a.unicode_len();
    let m = b.unicode_len();
    let mut j: usize = 0;
    loop
        invariant
            n == a@.len(),
            m == b@.len(),
            0 <= j <= n,
            j <= m,
            forall|l: int| 0 <= l < j ==> a@[l] == b@[l],
        decreases n - j,
    {
        proof {
            lemma_lex_le_skip(a@, b@, j as int);
        }
        if j == n {
            return true;
        }
        if j == m {
            return false;
        }
        let ca = a.get_char(j);
        let cb = b.get_char(j);
        if ca != cb {
            return (ca as u32) < (cb as u32);
        }
        j += 1;
    }
}

} // verus!
