//! Small byte-sequence helpers shared by the routing, header and
//! content-negotiation logic.

use vstd::prelude::*;

verus! {

/// Byte value of `/`, the path segment separator.
pub const SLASH: u8 = 47;

/// Byte value of `,`, the list separator in `Accept-Encoding`.
pub const COMMA: u8 = 44;

/// Byte value of `;`, which introduces parameters in an encoding entry.
pub const SEMI: u8 = 59;

/// Lowercases one ASCII byte.
pub open spec fn lower_byte(b: u8) -> u8 {
    if 65 <= b <= 90 {
        (b + 32) as u8
    } else {
        b
    }
}

/// Appends every byte of `s` to `out`.
pub fn push_all(out: &mut Vec<u8>, s: &[u8])
    ensures
        final(out)@ == old(out)@ + s@,
{
    let mut i: usize = 0;
    while i < s.len()
        invariant
            i <= s@.len(),
            out@ == old(out)@ + s@.subrange(0, i as int),
        decreases s@.len() - i,
    {
        out.push(s[i]);
        proof {
            assert(old(out)@ + s@.subrange(0, i as int) + seq![s@[i as int]] =~= old(out)@
                + s@.subrange(0, i + 1));
        }
        i = i + 1;
    }
    proof {
        assert(s@.subrange(0, s@.len() as int) =~= s@);
    }
}

/// Index of the first occurrence of `b` in `s` at or after `from`,
/// or `s.len()` if there is none.
pub open spec fn first_at(s: Seq<u8>, from: int, b: u8) -> int
    decreases s.len() - from,
{
    if from < 0 || from >= s.len() {
        s.len() as int
    } else if s[from] == b {
        from
    } else {
        first_at(s, from + 1, b)
    }
}

/// Bounds and characterization of `first_at`: the result is in range, points
/// at `b` when it is not the end, and nothing before it is `b`.
pub proof fn lemma_first_at(s: Seq<u8>, from: int, b: u8)
    requires
        0 <= from <= s.len(),
    ensures
        from <= first_at(s, from, b) <= s.len(),
        first_at(s, from, b) < s.len() ==> s[first_at(s, from, b)] == b,
        forall|j: int| from <= j < first_at(s, from, b) ==> s[j] != b,
    decreases s.len() - from,
{
    if from < s.len() && s[from] != b {
        lemma_first_at(s, from + 1, b);
    }
}

/// Finds the first occurrence of `b` in `s` at or after `from`.
pub fn find_byte(s: &[u8], from: usize, b: u8) -> (r: usize)
    requires
        from <= s@.len(),
    ensures
        r == first_at(s@, from as int, b),
{
    proof {
        lemma_first_at(s@, from as int, b);
    }
    let mut i: usize = from;
    while i < s.len()
        invariant
            from <= i <= s@.len(),
            forall|j: int| from <= j < i ==> s@[j] != b,
        decreases s@.len() - i,
    {
        if s[i] == b {
            proof {
                lemma_first_at_exact(s@, from as int, i as int, b);
            }
            return i;
        }
        i = i + 1;
    }
    proof {
        lemma_first_at_exact(s@, from as int, s@.len() as int, b);
    }
    s.len()
}

/// If no `b` occurs in `[from, i)` and either `i` is the end or `s[i] == b`,
/// then `i` is exactly `first_at(s, from, b)`.
pub proof fn lemma_first_at_exact(s: Seq<u8>, from: int, i: int, b: u8)
    requires
        0 <= from <= i <= s.len(),
        forall|j: int| from <= j < i ==> s[j] != b,
        i == s.len() || s[i] == b,
    ensures
        first_at(s, from, b) == i,
    decreases i - from,
{
    if from < i {
        lemma_first_at_exact(s, from + 1, i, b);
    }
}

} // verus!
