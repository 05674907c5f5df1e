use vstd::prelude::*;

verus! {

/// Strict lexicographic order on character sequences, by code point, with
/// a proper prefix ordered before its extensions. This is the ascending
/// key order that the channel list and the escrow ledger maintain.
pub open spec fn lex_lt(a: Seq<char>, b: Seq<char>) -> bool
    decreases a.len(),
{
    if b.len() == 0 {
        false
    } else if a.len() == 0 {
        true
    } else if a[0] != b[0] {
        (a[0] as u32) < (b[0] as u32)
    } else {
        lex_lt(a.skip(1), b.skip(1))
    }
}

/// Distinct characters have distinct code points.
proof fn lemma_char_neq_cast(x: char, y: char)
    requires
        x != y,
    ensures
        x as u32 != y as u32,
{
}

/// The order is irreflexive.
pub proof fn lemma_lex_irrefl(a: Seq<char>)
    ensures
        !lex_lt(a, a),
    decreases a.len(),
{
    if a.len() > 0 {
        lemma_lex_irrefl(a.skip(1));
    }
}

/// Any two sequences are ordered one way or the other, or equal.
pub proof fn lemma_lex_connex(a: Seq<char>, b: Seq<char>)
    ensures
        lex_lt(a, b) || lex_lt(b, a) || a == b,
    decreases a.len(),
{
    if b.len() == 0 {
        if a.len() == 0 {
            assert(a =~= b);
        } else {
            assert(lex_lt(b, a));
        }
    } else if a.len() == 0 {
        assert(lex_lt(a, b));
    } else if a[0] != b[0] {
        assert(lex_lt(a, b) == ((a[0] as u32) < (b[0] as u32)));
        assert(lex_lt(b, a) == ((b[0] as u32) < (a[0] as u32)));
        if !((a[0] as u32) < (b[0] as u32)) {
            lemma_char_neq_cast(a[0], b[0]);
            assert((b[0] as u32) < (a[0] as u32));
        }
    } else {
        lemma_lex_connex(a.skip(1), b.skip(1));
        assert(lex_lt(a, b) == lex_lt(a.skip(1), b.skip(1)));
        assert(lex_lt(b, a) == lex_lt(b.skip(1), a.skip(1)));
        if !lex_lt(a, b) && !lex_lt(b, a) {
            assert(a.skip(1) == b.skip(1));
            assert(a =~= b) by {
                assert forall|i: int| 0 <= i < a.len() implies a[i] == b[i] by {
                    if i > 0 {
                        assert(a.skip(1)[i - 1] == a[i]);
                        assert(b.skip(1)[i - 1] == b[i]);
                    }
                }
            }
        }
    }
}

/// The order is transitive.
pub proof fn lemma_lex_trans(a: Seq<char>, b: Seq<char>, c: Seq<char>)
    requires
        lex_lt(a, b),
        lex_lt(b, c),
    ensures
        lex_lt(a, c),
    decreases a.len(),
{
    if a.len() > 0 && b.len() > 0 && c.len() > 0 && a[0] == b[0] && b[0] == c[0] {
        lemma_lex_trans(a.skip(1), b.skip(1), c.skip(1));
    }
}

/// Strict order on (channel, denomination) ledger keys: by channel first,
/// then by denomination.
pub open spec fn key_lt(c1: Seq<char>, d1: Seq<char>, c2: Seq<char>, d2: Seq<char>) -> bool {
    lex_lt(c1, c2) || (c1 == c2 && lex_lt(d1, d2))
}

/// The key order is irreflexive.
pub proof fn lemma_key_irrefl(c: Seq<char>, d: Seq<char>)
    ensures
        !key_lt(c, d, c, d),
{
    lemma_lex_irrefl(c);
    lemma_lex_irrefl(d);
}

/// Any two keys are ordered one way or the other, or equal.
pub proof fn lemma_key_connex(c1: Seq<char>, d1: Seq<char>, c2: Seq<char>, d2: Seq<char>)
    ensures
        key_lt(c1, d1, c2, d2) || key_lt(c2, d2, c1, d1) || (c1 == c2 && d1 == d2),
{
    lemma_lex_connex(c1, c2);
    lemma_lex_connex(d1, d2);
}

/// The key order is transitive.
pub proof fn lemma_key_trans(
    c1: Seq<char>,
    d1: Seq<char>,
    c2: Seq<char>,
    d2: Seq<char>,
    c3: Seq<char>,
    d3: Seq<char>,
)
    requires
        key_lt(c1, d1, c2, d2),
        key_lt(c2, d2, c3, d3),
    ensures
        key_lt(c1, d1, c3, d3),
{
    if lex_lt(c1, c2) && lex_lt(c2, c3) {
        lemma_lex_trans(c1, c2, c3);
    }
    if c1 == c2 && c2 == c3 {
        lemma_lex_irrefl(c1);
        lemma_lex_trans(d1, d2, d3);
    }
}

/// Compares two strings in the order [`lex_lt`] describes.
pub fn str_lt(a: &str, b: &str) -> (r: bool)
    ensures
        r == lex_lt(a@, b@),
{
    let alen = a.unicode_len();
    let blen = b.unicode_len();
    let mut i: usize = 0;
    proof {
        assert(a@.skip(0) =~= a@);
        assert(b@.skip(0) =~= b@);
    }
    loop
        invariant
            alen == a@.len(),
            blen == b@.len(),
            i <= alen,
            i <= blen,
            lex_lt(a@, b@) == lex_lt(a@.skip(i as int), b@.skip(i as int)),
        decreases alen - i,
    {
        if i >= alen || i >= blen {
            proof {
                if i >= alen {
                    assert(a@.skip(i as int).len() == 0);
                } else {
                    assert(b@.skip(i as int).len() == 0);
                }
            }
            return alen < blen;
        }
        let ca = a.get_char(i);
        let cb = b.get_char(i);
        proof {
            assert(a@.skip(i as int)[0] == a@[i as int]);
            assert(b@.skip(i as int)[0] == b@[i as int]);
        }
        if ca != cb {
            return (ca as u32) < (cb as u32);
        }
        proof {
            assert(a@.skip(i as int).skip(1) =~= a@.skip(i + 1));
            assert(b@.skip(i as int).skip(1) =~= b@.skip(i + 1));
        }
        i = i + 1;
    }
}

} // verus!
