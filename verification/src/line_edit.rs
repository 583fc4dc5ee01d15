//! Editing a line of text at a cursor that is a byte offset into its UTF-8
//! encoding, always on a character boundary.

use vstd::prelude::*;
use vstd::utf8::encode_scalar;
use crate::text::{byte_count, byte_len, char_width, chars_of, lemma_byte_len_prefix_le, lemma_byte_len_step, string_from_chars};

verus! {

/// `pos` is the byte offset of the boundary before character `k` of `s`.
pub open spec fn boundary_at(s: Seq<char>, pos: nat, k: int) -> bool {
    0 <= k <= s.len() && byte_len(s.take(k)) == pos
}

/// `pos` falls on a character boundary of `s`.
pub open spec fn is_boundary(s: Seq<char>, pos: nat) -> bool {
    exists|k: int| boundary_at(s, pos, k)
}

/// The number of characters before the boundary at byte offset `pos`.
pub open spec fn char_index(s: Seq<char>, pos: nat) -> int {
    choose|k: int| boundary_at(s, pos, k)
}

pub proof fn lemma_width_positive(c: char)
    ensures
        encode_scalar(c as u32).len() >= 1,
{
}

/// Longer prefixes have strictly more bytes.
pub proof fn lemma_byte_len_prefix_lt(s: Seq<char>, j: int, k: int)
    requires
        0 <= j < k <= s.len(),
    ensures
        byte_len(s.take(j)) < byte_len(s.take(k)),
{
    lemma_byte_len_prefix_le(s, j + 1, k);
    lemma_byte_len_step(s, j);
    lemma_width_positive(s[j]);
}

/// A boundary has one character index.
pub proof fn lemma_boundary_unique(s: Seq<char>, pos: nat, k: int)
    requires
        boundary_at(s, pos, k),
    ensures
        is_boundary(s, pos),
        char_index(s, pos) == k,
{
    let j = char_index(s, pos);
    if j < k {
        lemma_byte_len_prefix_lt(s, j, k);
    } else if j > k {
        lemma_byte_len_prefix_lt(s, k, j);
    }
}

/// The character index of the boundary at byte offset `pos`.
pub fn index_of_boundary(s: &Vec<char>, pos: usize) -> (k: usize)
    requires
        is_boundary(s@, pos as nat),
    ensures
        k == char_index(s@, pos as nat),
        boundary_at(s@, pos as nat, k as int),
{
    let ghost target = char_index(s@, pos as nat);
    let mut k: usize = 0;
    let mut bytes: usize = 0;
    assert(s@.take(0) =~= Seq::<char>::empty());
    proof {
        if target > 0 {
            lemma_byte_len_prefix_lt(s@, 0, target);
        }
    }
    let n = s.len();
    while bytes < pos
        invariant
            n == s@.len(),
            k <= target <= s@.len(),
            boundary_at(s@, pos as nat, target),
            bytes == byte_len(s@.take(k as int)),
            bytes <= pos,
            k < target <==> bytes < pos,
        decreases target - k,
    {
        let w = char_width(s[k]);
        proof {
            lemma_byte_len_step(s@, k as int);
            lemma_byte_len_prefix_le(s@, k as int + 1, target);
            if k + 1 < target {
                lemma_byte_len_prefix_lt(s@, k as int + 1, target);
            }
        }
        bytes = bytes + w;
        k = k + 1;
    }
    proof {
        lemma_boundary_unique(s@, pos as nat, k as int);
    }
    k
}

/// Bytes of the first `k` characters of `s`.
pub fn prefix_bytes(s: &Vec<char>, k: usize) -> (n: usize)
    requires
        k <= s@.len(),
        byte_len(s@) <= usize::MAX,
    ensures
        n == byte_len(s@.take(k as int)),
{
    let mut i: usize = 0;
    let mut n: usize = 0;
    assert(s@.take(0) =~= Seq::<char>::empty());
    while i < k
        invariant
            i <= k <= s@.len(),
            n == byte_len(s@.take(i as int)),
            byte_len(s@) <= usize::MAX,
        decreases k - i,
    {
        proof {
            lemma_byte_len_step(s@, i as int);
            lemma_byte_len_prefix_le(s@, i as int + 1, s@.len() as int);
            assert(s@.take(s@.len() as int) =~= s@);
        }
        n = n + char_width(s[i]);
        i = i + 1;
    }
    n
}

/// A line and its cursor, as the editing operations leave them.
pub struct LineState {
    pub text: String,
    pub cursor: usize,
}

/// `c` inserted at the cursor, which moves past it.
pub fn insert_at(text: &String, cursor: usize, c: char) -> (r: LineState)
    requires
        is_boundary(text@, cursor as nat),
        byte_len(text@) + 4 <= usize::MAX,
    ensures
        r.text@ == text@.take(char_index(text@, cursor as nat)) + seq![c] + text@.skip(
            char_index(text@, cursor as nat),
        ),
        r.cursor == cursor + encode_scalar(c as u32).len(),
        boundary_at(r.text@, r.cursor as nat, char_index(text@, cursor as nat) + 1),
{
    let cs = chars_of(text.as_str());
    let k = index_of_boundary(&cs, cursor);
    let mut out: Vec<char> = Vec::new();
    let mut i: usize = 0;
    while i < k
        invariant
            i <= k <= cs@.len(),
            out@ == cs@.take(i as int),
        decreases k - i,
    {
        out.push(cs[i]);
        i = i + 1;
        assert(out@ =~= cs@.take(i as int));
    }
    out.push(c);
    let mut j: usize = k;
    while j < cs.len()
        invariant
            k <= j <= cs@.len(),
            out@ == cs@.take(k as int) + seq![c] + cs@.subrange(k as int, j as int),
        decreases cs@.len() - j,
    {
        out.push(cs[j]);
        j = j + 1;
        assert(out@ =~= cs@.take(k as int) + seq![c] + cs@.subrange(k as int, j as int));
    }
    assert(cs@.subrange(k as int, j as int) =~= cs@.skip(k as int));
    let w = char_width(c);
    proof {
        let n = out@;
        assert(n.take(k as int) =~= cs@.take(k as int));
        assert(n[k as int] == c);
        lemma_byte_len_step(n, k as int);
        lemma_byte_len_prefix_le(cs@, k as int, cs@.len() as int);
        assert(cs@.take(cs@.len() as int) =~= cs@);
    }
    LineState { text: string_from_chars(out.as_slice()), cursor: cursor + w }
}

/// The character before the cursor removed; the cursor moves to where it
/// began. Nothing changes at the start of the line.
pub fn remove_before(text: &String, cursor: usize) -> (r: LineState)
    requires
        is_boundary(text@, cursor as nat),
    ensures
        cursor == 0 ==> r.text@ == text@ && r.cursor == 0,
        cursor > 0 ==> ({
            let k = char_index(text@, cursor as nat);
            &&& r.text@ == text@.take(k - 1) + text@.skip(k)
            &&& r.cursor == byte_len(text@.take(k - 1))
            &&& boundary_at(r.text@, r.cursor as nat, k - 1)
        }),
{
    let cs = chars_of(text.as_str());
    if cursor == 0 {
        return LineState { text: string_from_chars(cs.as_slice()), cursor: 0 };
    }
    let k = index_of_boundary(&cs, cursor);
    proof {
        assert(cs@.take(0) =~= Seq::<char>::empty());
    }
    let mut out: Vec<char> = Vec::new();
    let mut i: usize = 0;
    while i < cs.len()
        invariant
            0 < k <= cs@.len(),
            i <= cs@.len(),
            out@ == if (k as int - 1) < (i as int) {
                cs@.take(i as int).remove(k as int - 1)
            } else {
                cs@.take(i as int)
            },
        decreases cs@.len() - i,
    {
        if i != k - 1 {
            out.push(cs[i]);
        }
        i = i + 1;
        assert(out@ =~= if (k as int - 1) < (i as int) {
            cs@.take(i as int).remove(k as int - 1)
        } else {
            cs@.take(i as int)
        });
    }
    assert(out@ =~= cs@.take(k - 1) + cs@.skip(k as int));
    proof {
        lemma_byte_len_prefix_le(cs@, k - 1, k as int);
        assert(out@.take(k - 1) =~= cs@.take(k - 1));
    }
    let newpos = prefix_bytes_bounded(&cs, k - 1, cursor);
    LineState { text: string_from_chars(out.as_slice()), cursor: newpos }
}

/// Bytes of the first `k` characters, known to be at most `bound`.
fn prefix_bytes_bounded(s: &Vec<char>, k: usize, bound: usize) -> (n: usize)
    requires
        k <= s@.len(),
        byte_len(s@.take(k as int)) <= bound,
    ensures
        n == byte_len(s@.take(k as int)),
{
    let mut i: usize = 0;
    let mut n: usize = 0;
    assert(s@.take(0) =~= Seq::<char>::empty());
    while i < k
        invariant
            i <= k <= s@.len(),
            n == byte_len(s@.take(i as int)),
            byte_len(s@.take(k as int)) <= bound,
        decreases k - i,
    {
        proof {
            lemma_byte_len_step(s@, i as int);
            lemma_byte_len_prefix_le(s@, i as int + 1, k as int);
        }
        n = n + char_width(s[i]);
        i = i + 1;
    }
    n
}

/// The character at the cursor removed; the cursor stays. Nothing changes
/// at the end of the line.
pub fn remove_at(text: &String, cursor: usize) -> (r: LineState)
    requires
        is_boundary(text@, cursor as nat),
    ensures
        r.cursor == cursor,
        ({
            let k = char_index(text@, cursor as nat);
            &&& k < text@.len() ==> r.text@ == text@.take(k) + text@.skip(k + 1)
            &&& k >= text@.len() ==> r.text@ == text@
            &&& boundary_at(r.text@, r.cursor as nat, k)
        }),
{
    let cs = chars_of(text.as_str());
    let k = index_of_boundary(&cs, cursor);
    let mut out: Vec<char> = Vec::new();
    let mut i: usize = 0;
    while i < cs.len()
        invariant
            k <= cs@.len(),
            i <= cs@.len(),
            out@ == if (k as int) < (i as int) {
                cs@.take(i as int).remove(k as int)
            } else {
                cs@.take(i as int)
            },
        decreases cs@.len() - i,
    {
        if i != k {
            out.push(cs[i]);
        }
        i = i + 1;
        assert(out@ =~= if (k as int) < (i as int) {
            cs@.take(i as int).remove(k as int)
        } else {
            cs@.take(i as int)
        });
    }
    proof {
        if k < cs@.len() {
            assert(out@ =~= cs@.take(k as int) + cs@.skip(k as int + 1));
        } else {
            assert(out@ =~= cs@);
        }
        assert(out@.take(k as int) =~= cs@.take(k as int));
    }
    LineState { text: string_from_chars(out.as_slice()), cursor }
}

/// The boundary one character to the left, or 0 at the start.
pub fn boundary_left(text: &String, cursor: usize) -> (r: usize)
    requires
        is_boundary(text@, cursor as nat),
    ensures
        cursor == 0 ==> r == 0,
        cursor > 0 ==> r == byte_len(text@.take(char_index(text@, cursor as nat) - 1)),
        is_boundary(text@, r as nat),
{
    if cursor == 0 {
        proof {
            assert(boundary_at(text@, 0, 0)) by {
                assert(text@.take(0) =~= Seq::<char>::empty());
            }
        }
        return 0;
    }
    let cs = chars_of(text.as_str());
    let k = index_of_boundary(&cs, cursor);
    proof {
        assert(cs@.take(0) =~= Seq::<char>::empty());
        lemma_byte_len_prefix_le(cs@, k - 1, k as int);
    }
    let r = prefix_bytes_bounded(&cs, k - 1, cursor);
    proof {
        assert(boundary_at(text@, r as nat, k - 1));
    }
    r
}

/// The boundary one character to the right, or the end of the line.
pub fn boundary_right(text: &String, cursor: usize) -> (r: usize)
    requires
        is_boundary(text@, cursor as nat),
    ensures
        ({
            let k = char_index(text@, cursor as nat);
            &&& k < text@.len() ==> r == byte_len(text@.take(k + 1))
            &&& k >= text@.len() ==> r == cursor
        }),
        is_boundary(text@, r as nat),
{
    let cs = chars_of(text.as_str());
    let k = index_of_boundary(&cs, cursor);
    let total = byte_count(text.as_str());
    if k < cs.len() {
        proof {
            lemma_byte_len_prefix_le(cs@, k as int + 1, cs@.len() as int);
            assert(cs@.take(cs@.len() as int) =~= cs@);
        }
        let r = prefix_bytes_bounded(&cs, k + 1, total);
        proof {
            assert(boundary_at(text@, r as nat, k as int + 1));
        }
        r
    } else {
        cursor
    }
}

/// The end of the line is a boundary.
pub proof fn lemma_end_is_boundary(s: Seq<char>)
    ensures
        boundary_at(s, byte_len(s), s.len() as int),
{
    assert(s.take(s.len() as int) =~= s);
}

/// The start of the line is a boundary.
pub proof fn lemma_start_is_boundary(s: Seq<char>)
    ensures
        boundary_at(s, 0, 0),
{
    assert(s.take(0) =~= Seq::<char>::empty());
}

} // verus!
