use vstd::prelude::*;

verus! {

/// Character-for-character equality of two string slices.
pub fn str_eq(a: &str, b: &str) -> (r: bool)
    ensures
        r == (a@ == b@),
{
    let an = a.unicode_len();
    let bn = b.unicode_len();
    if an != bn {
        return false;
    }
    let mut i: usize = 0;
    while i < an
        invariant
            an == a@.len(),
            an == b@.len(),
            0 <= i <= an,
            forall|k: int| 0 <= k < i ==> a@[k] == b@[k],
        decreases an - i,
    {
        if a.get_char(i) != b.get_char(i) {
            return false;
        }
        i = i + 1;
    }
    proof {
        assert(a@ =~= b@);
    }
    true
}

/// Strict lexicographic order on character sequences by code point; this is
/// the order in which the database sorts its UTF-8 text keys.
pub open spec fn lex_lt(a: Seq<char>, b: Seq<char>) -> bool
    decreases a.len(),
{
    if b.len() == 0 {
        false
    } else if a.len() == 0 {
        true
    } else if a[0] != b[0] {
        (a[0] as u32) < (b[0] as u32)
    } else {
        lex_lt(a.drop_first(), b.drop_first())
    }
}

/// Casting to the code point loses nothing: equal code points mean equal
/// characters.
proof fn lemma_char_cast_inj(x: char, y: char)
    ensures
        x as u32 == y as u32 ==> x == y,
{
}

/// Two distinct sequences are ordered one way or the other.
pub proof fn lemma_lex_lt_connected(a: Seq<char>, b: Seq<char>)
    ensures
        a != b ==> lex_lt(a, b) || lex_lt(b, a),
    decreases a.len(),
{
    if b.len() == 0 {
        if a.len() == 0 {
            assert(a =~= b);
        }
    } else if a.len() == 0 {
    } else if a[0] != b[0] {
        lemma_char_cast_inj(a[0], b[0]);
    } else {
        lemma_lex_lt_connected(a.drop_first(), b.drop_first());
        if a.drop_first() == b.drop_first() {
            assert(a.drop_first().len() == a.len() - 1);
            assert(b.drop_first().len() == b.len() - 1);
            assert(a.len() == b.len());
            assert forall|i: int| 0 <= i < a.len() implies a[i] == b[i] by {
                if i > 0 {
                    assert(a.drop_first()[i - 1] == a[i]);
                    assert(b.drop_first()[i - 1] == b[i]);
                }
            }
            assert(a =~= b);
        }
    }
}

/// No sequence is ordered before itself.
pub proof fn lemma_lex_lt_irrefl(a: Seq<char>)
    ensures
        !lex_lt(a, a),
    decreases a.len(),
{
    if a.len() > 0 {
        lemma_lex_lt_irrefl(a.drop_first());
    }
}

/// Lexicographic order is transitive.
pub proof fn lemma_lex_lt_trans(a: Seq<char>, b: Seq<char>, c: Seq<char>)
    requires
        lex_lt(a, b),
        lex_lt(b, c),
    ensures
        lex_lt(a, c),
    decreases a.len(),
{
    if a.len() == 0 {
    } else {
        if a[0] == b[0] && b[0] == c[0] {
            lemma_lex_lt_trans(a.drop_first(), b.drop_first(), c.drop_first());
        }
    }
}

/// Exact comparison of two string slices under `lex_lt`.
pub fn str_lex_lt(a: &str, b: &str) -> (r: bool)
    ensures
        r == lex_lt(a@, b@),
{
    let an = a.unicode_len();
    let bn = b.unicode_len();
    let mut i: usize = 0;
    proof {
        assert(a@.skip(0) =~= a@);
        assert(b@.skip(0) =~= b@);
    }
    while i < an && i < bn
        invariant
            an == a@.len(),
            bn == b@.len(),
            0 <= i <= an,
            0 <= i <= bn,
            lex_lt(a@, b@) == lex_lt(a@.skip(i as int), b@.skip(i as int)),
        decreases an - i,
    {
        let ca = a.get_char(i);
        let cb = b.get_char(i);
        proof {
            assert(a@.skip(i as int)[0] == a@[i as int]);
            assert(b@.skip(i as int)[0] == b@[i as int]);
        }
        if ca != cb {
            return (ca as u32) < (cb as u32);
        }
        proof {
            assert(a@.skip(i as int).drop_first() =~= a@.skip(i + 1));
            assert(b@.skip(i as int).drop_first() =~= b@.skip(i + 1));
        }
        i = i + 1;
    }
    proof {
        assert(a@.skip(i as int).len() == an - i);
        assert(b@.skip(i as int).len() == bn - i);
    }
    an < bn
}

/// ASCII case folding on a code point: upper-case letters map to their
/// lower-case forms, every other code point is unchanged. This mirrors the
/// engine's case-insensitive `LIKE` matching, which folds ASCII only.
pub open spec fn fold_code(c: u32) -> int {
    if 65 <= c && c <= 90 {
        c + 32
    } else {
        c as int
    }
}

/// The pattern occurs in `s` starting at offset `i`, compared under ASCII
/// case folding.
pub open spec fn folded_match_at(s: Seq<char>, p: Seq<char>, i: int) -> bool {
    forall|j: int| 0 <= j < p.len() ==> fold_code(s[i + j] as u32) == fold_code(p[j] as u32)
}

/// The pattern occurs somewhere in `s` under ASCII case folding: the
/// substring test that a `LIKE` pattern with wildcard markers on both
/// sides performs.
pub open spec fn contains_folded(s: Seq<char>, p: Seq<char>) -> bool {
    exists|i: int| 0 <= i <= s.len() - p.len() && folded_match_at(s, p, i)
}

fn fold_char_code(c: char) -> (r: u32)
    ensures
        r == fold_code(c as u32),
{
    let u = c as u32;
    if 65 <= u && u <= 90 {
        u + 32
    } else {
        u
    }
}

/// Case-folded substring search: does `p` occur in `s` when both are folded
/// with `fold_code`? The empty pattern occurs in every string.
pub fn str_contains_folded(s: &str, p: &str) -> (r: bool)
    ensures
        r == contains_folded(s@, p@),
{
    let sn = s.unicode_len();
    let pn = p.unicode_len();
    if pn > sn {
        return false;
    }
    let mut i: usize = 0;
    while i <= sn - pn
        invariant
            sn == s@.len(),
            pn == p@.len(),
            pn <= sn,
            0 <= i <= sn - pn + 1,
            forall|k: int| 0 <= k < i ==> !folded_match_at(s@, p@, k),
        decreases sn + 1 - pn - i,
    {
        let mut j: usize = 0;
        let mut matched = true;
        while j < pn
            invariant
                sn == s@.len(),
                pn == p@.len(),
                pn <= sn,
                0 <= i <= sn - pn,
                0 <= j <= pn,
                matched == (forall|k: int|
                    0 <= k < j ==> fold_code(s@[i + k] as u32) == fold_code(p@[k] as u32)),
            decreases pn - j,
        {
            if fold_char_code(s.get_char(i + j)) != fold_char_code(p.get_char(j)) {
                matched = false;
                proof {
                    assert(!(forall|k: int|
                        0 <= k < j + 1 ==> fold_code(s@[i + k] as u32) == fold_code(
                            p@[k] as u32,
                        ))) by {
                        assert(fold_code(s@[i + j] as u32) != fold_code(p@[j as int] as u32));
                    }
                }
            }
            j = j + 1;
        }
        if matched {
            proof {
                assert(folded_match_at(s@, p@, i as int));
            }
            return true;
        }
        proof {
            assert(!folded_match_at(s@, p@, i as int));
        }
        i = i + 1;
    }
    proof {
        assert(forall|k: int| 0 <= k <= sn - pn ==> !folded_match_at(s@, p@, k));
    }
    false
}

} // verus!
