//! Text as the protocol carries it: UTF-8 on the wire, limits counted in
//! UTF-16 code units.
use vstd::prelude::*;

verus! {

/// The number of UTF-16 code units that encode `s`: two for a character
/// outside the basic multilingual plane, one for any other.
pub open spec fn utf16_len(s: Seq<char>) -> nat
    decreases s.len(),
{
    if s.len() == 0 {
        0
    } else {
        utf16_len(s.drop_last()) + (if (s.last() as u32) >= 0x10000 { 2nat } else { 1nat })
    }
}

/// The UTF-16 length of `s` as a machine count can hold it.
pub open spec fn utf16_units(s: Seq<char>) -> nat {
    if utf16_len(s) > usize::MAX { usize::MAX as nat } else { utf16_len(s) }
}

/// Counts the UTF-16 code units of `s`.
pub fn utf16_count(s: &str) -> (n: usize)
    ensures
        n == utf16_units(s@),
{
    broadcast use vstd::string::axiom_spec_iter;
    let mut n: usize = 0;
    for c in it: s.chars()
        invariant
            it.seq() == s@,
            n == utf16_units(it.seq().take(it.index() as int)),
    {
        assert(it.seq().take(it.index() as int + 1).drop_last() =~= it.seq().take(it.index() as int));
        assert(it.seq().take(it.index() as int + 1).last() == c);
        if (c as u32) >= 0x10000 {
            n = n.saturating_add(2);
        } else {
            n = n.saturating_add(1);
        }
    }
    assert(s@.take(s@.len() as int) =~= s@);
    n
}

} // verus!
