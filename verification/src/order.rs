//! Lexicographic order on character sequences, used to keep scan results
//! in a deterministic, name-keyed order.

use vstd::prelude::*;
use vstd::string::StrSliceExecFns;

verus! {

/// Strict lexicographic order on character sequences, by scalar value.
pub open spec fn lex_lt(a: Seq<char>, b: Seq<char>) -> bool
    decreases a.len(),
{
    if b.len() == 0 {
        false
    } else if a.len() == 0 {
        true
    } else if (a[0] as u32) < (b[0] as u32) {
        true
    } else if (a[0] as u32) > (b[0] as u32) {
        false
    } else {
        lex_lt(a.drop_first(), b.drop_first())
    }
}

/// Characters with the same scalar value are the same character.
proof fn lemma_char_cast_eq(x: char, y: char)
    requires
        x as u32 == y as u32,
    ensures
        x == y,
{
}

/// Two sequences with equal heads and equal tails are equal.
proof fn lemma_head_tail_eq(a: Seq<char>, b: Seq<char>)
    requires
        a.len() > 0,
        b.len() > 0,
        a[0] == b[0],
        a.drop_first() == b.drop_first(),
    ensures
        a == b,
{
    assert(a.drop_first().len() == a.len() - 1);
    assert(b.drop_first().len() == b.len() - 1);
    assert(a.len() == b.len());
    assert(a =~= b) by {
        assert forall|i: int| 0 <= i < a.len() implies a[i] == b[i] by {
            if i > 0 {
                assert(a[i] == a.drop_first()[i - 1]);
                assert(b[i] == b.drop_first()[i - 1]);
            }
        }
    }
}

/// Of two character sequences, either one is strictly below the other or
/// they are equal, and never more than one of the three.
pub proof fn lemma_lex_lt_trichotomy(a: Seq<char>, b: Seq<char>)
    ensures
        lex_lt(a, b) || lex_lt(b, a) || a == b,
        lex_lt(a, b) ==> !lex_lt(b, a) && a != b,
        lex_lt(b, a) ==> !lex_lt(a, b) && a != b,
    decreases a.len(),
{
    if b.len() == 0 {
        assert(!lex_lt(a, b));
        if a.len() == 0 {
            assert(a =~= b);
        } else {
            assert(lex_lt(b, a));
            assert(a.len() != b.len());
        }
    } else if a.len() == 0 {
        assert(lex_lt(a, b));
        assert(!lex_lt(b, a));
        assert(a.len() != b.len());
    } else if (a[0] as u32) < (b[0] as u32) {
        assert(lex_lt(a, b));
        assert(!lex_lt(b, a));
        assert(a[0] != b[0]);
    } else if (a[0] as u32) > (b[0] as u32) {
        assert(lex_lt(b, a));
        assert(!lex_lt(a, b));
        assert(a[0] != b[0]);
    } else {
        lemma_char_cast_eq(a[0], b[0]);
        assert(a[0] == b[0]);
        lemma_lex_lt_trichotomy(a.drop_first(), b.drop_first());
        assert(lex_lt(a, b) == lex_lt(a.drop_first(), b.drop_first()));
        assert(lex_lt(b, a) == lex_lt(b.drop_first(), a.drop_first()));
        if a.drop_first() == b.drop_first() {
            lemma_head_tail_eq(a, b);
        }
        if a == b {
            assert(a.drop_first() =~= b.drop_first());
        }
    }
}

/// Strict lexicographic order is transitive.
pub proof fn lemma_lex_lt_trans(a: Seq<char>, b: Seq<char>, c: Seq<char>)
    requires
        lex_lt(a, b),
        lex_lt(b, c),
    ensures
        lex_lt(a, c),
    decreases a.len(),
{
    assert(b.len() > 0);
    assert(c.len() > 0);
    if a.len() == 0 {
        assert(lex_lt(a, c));
    } else {
        if (a[0] as u32) == (b[0] as u32) && (b[0] as u32) == (c[0] as u32) {
            assert(lex_lt(a.drop_first(), b.drop_first()));
            assert(lex_lt(b.drop_first(), c.drop_first()));
            lemma_lex_lt_trans(a.drop_first(), b.drop_first(), c.drop_first());
            assert(lex_lt(a, c));
        } else {
            assert((a[0] as u32) <= (b[0] as u32));
            assert((b[0] as u32) <= (c[0] as u32));
            assert((a[0] as u32) < (c[0] as u32));
            assert(lex_lt(a, c));
        }
    }
}

/// Compares the suffixes of two strings starting at character `i`.
fn str_lt_from(a: &str, b: &str, i: usize) -> (r: bool)
    requires
        i <= a@.len(),
        i <= b@.len(),
    ensures
        r == lex_lt(a@.skip(i as int), b@.skip(i as int)),
    decreases a@.len() - i,
{
    let b_len = b.unicode_len();
    if i == b_len {
        assert(b@.skip(i as int).len() == 0);
        false
    } else {
        let a_len = a.unicode_len();
        if i == a_len {
            assert(a@.skip(i as int).len() == 0);
            true
        } else {
            let ca = a.get_char(i);
            let cb = b.get_char(i);
            proof {
                assert(a@.skip(i as int)[0] == a@[i as int]);
                assert(b@.skip(i as int)[0] == b@[i as int]);
                assert(a@.skip(i as int).drop_first() =~= a@.skip(i as int + 1));
                assert(b@.skip(i as int).drop_first() =~= b@.skip(i as int + 1));
            }
            if (ca as u32) < (cb as u32) {
                true
            } else if (ca as u32) > (cb as u32) {
                false
            } else {
                str_lt_from(a, b, i + 1)
            }
        }
    }
}

/// Decides whether `a` comes strictly before `b` in lexicographic order.
pub fn str_lt(a: &str, b: &str) -> (r: bool)
    ensures
        r == lex_lt(a@, b@),
{
    proof {
        assert(a@.skip(0) =~= a@);
        assert(b@.skip(0) =~= b@);
    }
    str_lt_from(a, b, 0)
}

} // verus!
