//! Decoding a raw permission mode into a human-readable access string.

use vstd::prelude::*;
use vstd::string::StringExecFns;

verus! {

/// The three-character rendering of one octal permission digit `d`:
/// bit 4 is read, bit 2 is write, bit 1 is execute, and a cleared bit
/// renders as `-`. Total over all eight digit values.
pub open spec fn triplet_of(d: int) -> Seq<char> {
    seq![
        if d / 4 % 2 == 1 { 'r' } else { '-' },
        if d / 2 % 2 == 1 { 'w' } else { '-' },
        if d % 2 == 1 { 'x' } else { '-' },
    ]
}

/// The nine-character access string of a mode: the owner, group and other
/// octal digits of the mode's low nine bits, each rendered bit-wise.
pub open spec fn rwx_of(mode: int) -> Seq<char> {
    triplet_of(mode / 64 % 8) + triplet_of(mode / 8 % 8) + triplet_of(mode % 8)
}

/// Appends the three characters for one permission digit.
fn push_triplet(out: &mut String, d: u32)
    requires
        d < 8,
    ensures
        final(out)@ == old(out)@ + triplet_of(d as int),
{
    if d / 4 % 2 == 1 {
        out.append("r");
    } else {
        out.append("-");
    }
    if d / 2 % 2 == 1 {
        out.append("w");
    } else {
        out.append("-");
    }
    if d % 2 == 1 {
        out.append("x");
    } else {
        out.append("-");
    }
    proof {
        reveal_strlit("r");
        reveal_strlit("w");
        reveal_strlit("x");
        reveal_strlit("-");
        assert(out@ =~= old(out)@ + triplet_of(d as int));
    }
}

/// Decodes an OS `st_mode` value into the standard nine-character access
/// string, owner digit first, then group, then other.
pub fn get_rwx_from_st_mode(base_10_st_mode: u32) -> (rwx: String)
    ensures
        rwx@ == rwx_of(base_10_st_mode as int),
        rwx@.len() == 9,
{
    let mut rwx_repr = String::new();
    push_triplet(&mut rwx_repr, base_10_st_mode / 64 % 8);
    push_triplet(&mut rwx_repr, base_10_st_mode / 8 % 8);
    push_triplet(&mut rwx_repr, base_10_st_mode % 8);
    proof {
        assert(rwx_repr@ =~= rwx_of(base_10_st_mode as int));
    }
    rwx_repr
}

/// Every access string is nine characters long and draws only on the
/// characters `r`, `w`, `x` and `-`, whatever the mode.
pub proof fn lemma_rwx_shape(mode: int)
    ensures
        rwx_of(mode).len() == 9,
        forall|i: int|
            0 <= i < 9 ==> (rwx_of(mode)[i] == 'r' || rwx_of(mode)[i] == 'w' || rwx_of(mode)[i]
                == 'x' || rwx_of(mode)[i] == '-'),
{
    assert forall|i: int| 0 <= i < 9 implies (rwx_of(mode)[i] == 'r' || rwx_of(mode)[i] == 'w'
        || rwx_of(mode)[i] == 'x' || rwx_of(mode)[i] == '-') by {
        let s = rwx_of(mode);
        assert(s[0] == triplet_of(mode / 64 % 8)[0]);
        assert(s[1] == triplet_of(mode / 64 % 8)[1]);
        assert(s[2] == triplet_of(mode / 64 % 8)[2]);
        assert(s[3] == triplet_of(mode / 8 % 8)[0]);
        assert(s[4] == triplet_of(mode / 8 % 8)[1]);
        assert(s[5] == triplet_of(mode / 8 % 8)[2]);
        assert(s[6] == triplet_of(mode % 8)[0]);
        assert(s[7] == triplet_of(mode % 8)[1]);
        assert(s[8] == triplet_of(mode % 8)[2]);
    }
}

} // verus!
