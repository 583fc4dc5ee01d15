//! Dependency-free token estimation by character density: CJK text is
//! counted at about one and a half characters per token, everything else at
//! four.

use vstd::prelude::*;
use crate::text::chars_of;

verus! {

/// CJK unified ideographs (and extension A), Japanese kana, Hangul syllables.
pub open spec fn is_cjk(c: char) -> bool {
    let u = c as u32;
    ||| 0x4E00 <= u <= 0x9FFF
    ||| 0x3400 <= u <= 0x4DBF
    ||| 0x3040 <= u <= 0x30FF
    ||| 0xAC00 <= u <= 0xD7AF
}

/// Number of CJK characters in `s`.
pub open spec fn cjk_count(s: Seq<char>) -> nat
    decreases s.len(),
{
    if s.len() == 0 {
        0
    } else {
        cjk_count(s.drop_last()) + if is_cjk(s.last()) { 1nat } else { 0nat }
    }
}

pub proof fn lemma_cjk_count_bound(s: Seq<char>)
    ensures
        cjk_count(s) <= s.len(),
    decreases s.len(),
{
    if s.len() > 0 {
        lemma_cjk_count_bound(s.drop_last());
    }
}

/// The estimate: `ceil(cjk / 1.5) + (other / 4)`.
pub open spec fn estimate_spec(s: Seq<char>) -> nat {
    let cjk = cjk_count(s);
    let other = (s.len() - cjk) as nat;
    (2 * cjk + 2) / 3 + other / 4
}

fn is_cjk_exec(c: char) -> (b: bool)
    ensures
        b == is_cjk(c),
{
    let u = c as u32;
    (0x4E00 <= u && u <= 0x9FFF) || (0x3400 <= u && u <= 0x4DBF) || (0x3040 <= u && u <= 0x30FF)
        || (0xAC00 <= u && u <= 0xD7AF)
}

/// Estimated token count of `text`; zero for empty text.
pub fn estimate_tokens(text: &str) -> (t: u64)
    ensures
        t == estimate_spec(text@),
        text@.len() == 0 ==> t == 0,
{
    let cs = chars_of(text);
    let n = cs.len();
    let mut cjk: usize = 0;
    let mut i: usize = 0;
    while i < n
        invariant
            n == cs@.len(),
            i <= n,
            cjk == cjk_count(cs@.take(i as int)),
            cjk <= i,
        decreases n - i,
    {
        assert(cs@.take(i + 1).drop_last() =~= cs@.take(i as int));
        if is_cjk_exec(cs[i]) {
            cjk = cjk + 1;
        }
        i = i + 1;
    }
    assert(cs@.take(n as int) =~= cs@);
    let other = (n - cjk) as u64;
    let c = cjk as u64;
    assert(c - c / 3 == (2 * c + 2) / 3) by (nonlinear_arith);
    c - c / 3 + other / 4
}

/// The estimate stays between a quarter of the characters (less three, for
/// rounding) and one token per character: no text is estimated at more
/// tokens than it has characters, and none at fewer than four characters per
/// token.
pub proof fn law_estimate_bounds(s: Seq<char>)
    ensures
        estimate_spec(s) <= s.len(),
        4 * estimate_spec(s) + 3 >= s.len(),
{
    lemma_cjk_count_bound(s);
    let c = cjk_count(s);
    let o = (s.len() - c) as nat;
    assert((2 * c + 2) / 3 <= c) by (nonlinear_arith);
    assert(4 * ((2 * c + 2) / 3) >= c) by (nonlinear_arith);
    assert(4 * (o / 4) + 3 >= o);
}

/// Adding text never lowers the estimate.
pub proof fn law_estimate_monotone(a: Seq<char>, b: Seq<char>)
    ensures
        estimate_spec(a) <= estimate_spec(a + b),
    decreases b.len(),
{
    if b.len() > 0 {
        law_estimate_monotone(a, b.drop_last());
        assert((a + b).drop_last() =~= a + b.drop_last());
        lemma_cjk_count_bound(a + b.drop_last());
        lemma_cjk_count_bound(a + b);
    } else {
        assert(a + b =~= a);
    }
}

} // verus!
