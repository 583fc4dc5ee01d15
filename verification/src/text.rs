//! Character-level text operations used throughout the library, each stated
//! over the `Seq<char>` view of a string.

use vstd::prelude::*;
use vstd::utf8::{encode_scalar, encode_utf8};

verus! {

/// The characters of `s`, in order.
pub fn chars_of(s: &str) -> (v: Vec<char>)
    ensures
        v@ == s@,
{
    broadcast use vstd::string::axiom_spec_iter;
    let mut v: Vec<char> = Vec::new();
    for c in it: s.chars()
        invariant
            it.seq() == s@,
            v.len() == it.index(),
            forall|i: int| 0 <= i < v.len() ==> v@[i] == it.seq()[i],
    {
        v.push(c);
    }
    assert(v@ =~= s@);
    v
}

/// A string holding exactly the characters of `v`.
#[verifier::external_body]
pub(crate) fn string_from_chars(v: &[char]) -> (s: String)
    ensures
        s@ == v@,
{
    String::from_iter(v)
}

/// The decimal digit character for `d` (`d < 10`).
pub open spec fn digit_char(d: nat) -> char {
    if d == 0 { '0' }
    else if d == 1 { '1' }
    else if d == 2 { '2' }
    else if d == 3 { '3' }
    else if d == 4 { '4' }
    else if d == 5 { '5' }
    else if d == 6 { '6' }
    else if d == 7 { '7' }
    else if d == 8 { '8' }
    else { '9' }
}

/// Base-10 rendering of `n` without leading zeros (`"0"` for zero).
pub open spec fn decimal(n: nat) -> Seq<char>
    decreases n,
{
    if n < 10 {
        seq![digit_char(n)]
    } else {
        decimal(n / 10).push(digit_char(n % 10))
    }
}

fn digit(d: u64) -> (c: char)
    requires
        d < 10,
    ensures
        c == digit_char(d as nat),
{
    if d == 0 { '0' }
    else if d == 1 { '1' }
    else if d == 2 { '2' }
    else if d == 3 { '3' }
    else if d == 4 { '4' }
    else if d == 5 { '5' }
    else if d == 6 { '6' }
    else if d == 7 { '7' }
    else if d == 8 { '8' }
    else { '9' }
}

/// The decimal digits of `n`.
pub fn decimal_chars(n: u64) -> (v: Vec<char>)
    ensures
        v@ == decimal(n as nat),
    decreases n,
{
    if n < 10 {
        let mut v: Vec<char> = Vec::new();
        v.push(digit(n));
        v
    } else {
        let mut v = decimal_chars(n / 10);
        v.push(digit(n % 10));
        v
    }
}

/// `n` rendered in base 10, as `format!("{}", n)` renders it.
pub fn decimal_string(n: u64) -> (s: String)
    ensures
        s@ == decimal(n as nat),
{
    let v = decimal_chars(n);
    string_from_chars(v.as_slice())
}

/// Unicode `White_Space`, the set `char::is_whitespace` tests.
pub open spec fn is_ws(c: char) -> bool {
    let u = c as u32;
    ||| 0x9 <= u <= 0xD
    ||| u == 0x20
    ||| u == 0x85
    ||| u == 0xA0
    ||| u == 0x1680
    ||| 0x2000 <= u <= 0x200A
    ||| u == 0x2028
    ||| u == 0x2029
    ||| u == 0x202F
    ||| u == 0x205F
    ||| u == 0x3000
}

/// Whether `c` is Unicode white space.
pub fn is_whitespace(c: char) -> (b: bool)
    ensures
        b == is_ws(c),
{
    let u = c as u32;
    (0x9 <= u && u <= 0xD) || u == 0x20 || u == 0x85 || u == 0xA0 || u == 0x1680 || (0x2000
        <= u && u <= 0x200A) || u == 0x2028 || u == 0x2029 || u == 0x202F || u == 0x205F || u
        == 0x3000
}

/// Every character of `s` is white space.
pub open spec fn all_ws(s: Seq<char>) -> bool {
    forall|i: int| 0 <= i < s.len() ==> is_ws(#[trigger] s[i])
}

/// Whether `s.trim()` is empty.
pub fn is_blank(s: &[char]) -> (b: bool)
    ensures
        b == all_ws(s@),
{
    let mut i: usize = 0;
    while i < s.len()
        invariant
            i <= s@.len(),
            forall|j: int| 0 <= j < i ==> is_ws(#[trigger] s@[j]),
        decreases s@.len() - i,
    {
        if !is_whitespace(s[i]) {
            return false;
        }
        i = i + 1;
    }
    true
}

/// The character class removed by a strip: white space (`ws`), or the single
/// character `x`.
pub open spec fn hit(ws: bool, x: char, c: char) -> bool {
    if ws {
        is_ws(c)
    } else {
        c == x
    }
}

/// Number of leading characters of `s` in the class.
pub open spec fn lead_count(s: Seq<char>, ws: bool, x: char) -> nat
    decreases s.len(),
{
    if s.len() > 0 && hit(ws, x, s[0]) {
        1 + lead_count(s.drop_first(), ws, x)
    } else {
        0
    }
}

/// Number of trailing characters of `s` in the class.
pub open spec fn trail_count(s: Seq<char>, ws: bool, x: char) -> nat
    decreases s.len(),
{
    if s.len() > 0 && hit(ws, x, s.last()) {
        1 + trail_count(s.drop_last(), ws, x)
    } else {
        0
    }
}

pub proof fn lemma_trail_count(s: Seq<char>, ws: bool, x: char)
    ensures
        trail_count(s, ws, x) <= s.len(),
    decreases s.len(),
{
    if s.len() > 0 && hit(ws, x, s.last()) {
        lemma_trail_count(s.drop_last(), ws, x);
    }
}

/// `lead_count` is the index of the first character outside the class.
pub proof fn lemma_lead_count_unique(s: Seq<char>, ws: bool, x: char, k: nat)
    requires
        k <= s.len(),
        forall|i: int| 0 <= i < k ==> hit(ws, x, #[trigger] s[i]),
        k < s.len() ==> !hit(ws, x, s[k as int]),
    ensures
        lead_count(s, ws, x) == k,
    decreases s.len(),
{
    if k > 0 {
        assert(hit(ws, x, s[0]));
        let t = s.drop_first();
        assert forall|i: int| 0 <= i < k - 1 implies hit(ws, x, #[trigger] t[i]) by {
            assert(t[i] == s[i + 1]);
        }
        if k - 1 < t.len() {
            assert(t[k - 1] == s[k as int]);
        }
        lemma_lead_count_unique(t, ws, x, (k - 1) as nat);
    }
}

/// `trail_count` is the length of the longest suffix inside the class.
pub proof fn lemma_trail_count_unique(s: Seq<char>, ws: bool, x: char, k: nat)
    requires
        k <= s.len(),
        forall|i: int| s.len() - k <= i < s.len() ==> hit(ws, x, #[trigger] s[i]),
        k < s.len() ==> !hit(ws, x, s[s.len() - k - 1]),
    ensures
        trail_count(s, ws, x) == k,
    decreases s.len(),
{
    if k > 0 {
        assert(hit(ws, x, s[s.len() - 1]));
        let t = s.drop_last();
        assert forall|i: int| t.len() - (k - 1) <= i < t.len() implies hit(
            ws,
            x,
            #[trigger] t[i],
        ) by {
            assert(t[i] == s[i]);
        }
        if k - 1 < t.len() {
            assert(t[t.len() - (k - 1) - 1] == s[s.len() - k - 1]);
        }
        lemma_trail_count_unique(t, ws, x, (k - 1) as nat);
    }
}

/// `s` with every leading and trailing character of the class removed
/// (`str::trim` for white space, `str::trim_matches(x)` for a character).
pub open spec fn strip(s: Seq<char>, ws: bool, x: char) -> Seq<char> {
    let a = lead_count(s, ws, x);
    if a >= s.len() {
        Seq::empty()
    } else {
        let t = s.skip(a as int);
        t.take(t.len() - trail_count(t, ws, x))
    }
}

/// `s.trim()`.
pub open spec fn trim(s: Seq<char>) -> Seq<char> {
    strip(s, true, ' ')
}

fn lead_len(s: &[char], ws: bool, x: char) -> (k: usize)
    ensures
        k == lead_count(s@, ws, x),
{
    let mut i: usize = 0;
    while i < s.len()
        invariant
            i <= s@.len(),
            forall|j: int| 0 <= j < i ==> hit(ws, x, #[trigger] s@[j]),
        decreases s@.len() - i,
    {
        let c = s[i];
        let h = if ws { is_whitespace(c) } else { c == x };
        if !h {
            proof {
                lemma_lead_count_unique(s@, ws, x, i as nat);
            }
            return i;
        }
        i = i + 1;
    }
    proof {
        lemma_lead_count_unique(s@, ws, x, i as nat);
    }
    i
}

fn trail_len(s: &[char], lo: usize, ws: bool, x: char) -> (k: usize)
    requires
        lo <= s@.len(),
    ensures
        k == trail_count(s@.skip(lo as int), ws, x),
        k <= s@.len() - lo,
{
    let ghost t = s@.skip(lo as int);
    let mut k: usize = 0;
    while k < s.len() - lo
        invariant
            lo <= s@.len(),
            t == s@.skip(lo as int),
            t.len() == s@.len() - lo,
            k <= t.len(),
            forall|i: int| t.len() - k <= i < t.len() ==> hit(ws, x, #[trigger] t[i]),
        decreases t.len() - k,
    {
        let c = s[s.len() - 1 - k];
        assert(c == t[t.len() - k - 1]);
        let h = if ws { is_whitespace(c) } else { c == x };
        if !h {
            proof {
                lemma_trail_count_unique(t, ws, x, k as nat);
            }
            return k;
        }
        k = k + 1;
    }
    proof {
        lemma_trail_count_unique(t, ws, x, k as nat);
    }
    k
}

/// `s` with the class stripped from both ends.
pub fn strip_chars(s: &[char], ws: bool, x: char) -> (r: Vec<char>)
    ensures
        r@ == strip(s@, ws, x),
{
    let a = lead_len(s, ws, x);
    if a >= s.len() {
        return Vec::new();
    }
    let b = trail_len(s, a, ws, x);
    let ghost t = s@.skip(a as int);
    let mut r: Vec<char> = Vec::new();
    let end = s.len() - b;
    let mut i = a;
    while i < end
        invariant
            a <= i <= end,
            end == s@.len() - b,
            a + b <= s@.len(),
            r@ == s@.subrange(a as int, i as int),
        decreases end - i,
    {
        r.push(s[i]);
        i = i + 1;
        assert(r@ =~= s@.subrange(a as int, i as int));
    }
    assert(r@ =~= t.take(t.len() - b));
    r
}

/// `s.trim_start()`: `s` without its leading white space.
pub open spec fn trim_start(s: Seq<char>) -> Seq<char> {
    s.skip(lead_count(s, true, ' ') as int)
}

/// `s` without its leading white space.
pub fn trim_start_chars(s: &[char]) -> (r: Vec<char>)
    ensures
        r@ == trim_start(s@),
{
    let a = lead_len(s, true, ' ');
    proof {
        lemma_lead_count_le(s@, true, ' ');
    }
    let mut r: Vec<char> = Vec::new();
    let mut i = a;
    while i < s.len()
        invariant
            a <= i <= s@.len(),
            r@ == s@.subrange(a as int, i as int),
        decreases s@.len() - i,
    {
        r.push(s[i]);
        i = i + 1;
        assert(r@ =~= s@.subrange(a as int, i as int));
    }
    assert(r@ =~= s@.skip(a as int));
    r
}

pub proof fn lemma_lead_count_le(s: Seq<char>, ws: bool, x: char)
    ensures
        lead_count(s, ws, x) <= s.len(),
    decreases s.len(),
{
    if s.len() > 0 && hit(ws, x, s[0]) {
        lemma_lead_count_le(s.drop_first(), ws, x);
    }
}

/// `s` with every trailing `x` removed (`str::trim_end_matches(x)`).
pub open spec fn trim_end(s: Seq<char>, x: char) -> Seq<char> {
    s.take(s.len() - trail_count(s, false, x))
}

/// `s` with every trailing `x` removed.
pub fn trim_end_chars(s: &[char], x: char) -> (r: Vec<char>)
    ensures
        r@ == trim_end(s@, x),
{
    let b = trail_len(s, 0, false, x);
    assert(s@.skip(0) =~= s@);
    let end = s.len() - b;
    let mut r: Vec<char> = Vec::new();
    let mut i: usize = 0;
    while i < end
        invariant
            i <= end,
            end == s@.len() - b,
            r@ == s@.take(i as int),
        decreases end - i,
    {
        r.push(s[i]);
        i = i + 1;
        assert(r@ =~= s@.take(i as int));
    }
    r
}

/// `s.trim()` as characters.
pub fn trim_chars(s: &[char]) -> (r: Vec<char>)
    ensures
        r@ == trim(s@),
{
    strip_chars(s, true, ' ')
}

/// `pat` occurs in `s` starting at index `i`.
pub open spec fn occurs_at(s: Seq<char>, pat: Seq<char>, i: int) -> bool {
    0 <= i && i + pat.len() <= s.len() && s.subrange(i, i + pat.len()) == pat
}

/// `pat` occurs somewhere in `s` (`str::contains`).
pub open spec fn contains_seq(s: Seq<char>, pat: Seq<char>) -> bool {
    exists|i: int| occurs_at(s, pat, i)
}

/// Whether `pat` occurs in `s` at index `i`.
pub fn occurs_at_exec(s: &[char], pat: &[char], i: usize) -> (b: bool)
    ensures
        b == occurs_at(s@, pat@, i as int),
{
    if pat.len() > s.len() || i > s.len() - pat.len() {
        return false;
    }
    let mut j: usize = 0;
    while j < pat.len()
        invariant
            i + pat@.len() <= s@.len(),
            s@.len() == s.len(),
            pat@.len() == pat.len(),
            j <= pat@.len(),
            forall|k: int| 0 <= k < j ==> s@[i + k] == pat@[k],
        decreases pat@.len() - j,
    {
        if s[i + j] != pat[j] {
            assert(s@.subrange(i as int, i + pat@.len())[j as int] != pat@[j as int]);
            return false;
        }
        j = j + 1;
    }
    assert(s@.subrange(i as int, i + pat@.len()) =~= pat@);
    true
}

/// Whether `pat` occurs in `s`.
pub fn contains_chars(s: &[char], pat: &[char]) -> (b: bool)
    ensures
        b == contains_seq(s@, pat@),
{
    if pat.len() > s.len() {
        assert(!contains_seq(s@, pat@));
        return false;
    }
    let last = s.len() - pat.len();
    let mut i: usize = 0;
    loop
        invariant
            last == s@.len() - pat@.len(),
            i <= last,
            forall|k: int| 0 <= k < i ==> !occurs_at(s@, pat@, k),
        decreases last - i,
    {
        if occurs_at_exec(s, pat, i) {
            return true;
        }
        if i == last {
            assert(!contains_seq(s@, pat@)) by {
                assert forall|k: int| !occurs_at(s@, pat@, k) by {
                    if 0 <= k && k < i {
                    }
                }
            }
            return false;
        }
        i = i + 1;
    }
}

/// `s` begins with `pat`.
pub open spec fn starts_with(s: Seq<char>, pat: Seq<char>) -> bool {
    pat.len() <= s.len() && s.take(pat.len() as int) == pat
}

/// Whether `s` begins with `pat`.
pub fn starts_with_chars(s: &[char], pat: &[char]) -> (b: bool)
    ensures
        b == starts_with(s@, pat@),
{
    let r = occurs_at_exec(s, pat, 0);
    proof {
        if pat@.len() <= s@.len() {
            assert(s@.subrange(0, pat@.len() as int) =~= s@.take(pat@.len() as int));
        }
    }
    r
}

/// `str::replace(s, pat, rep)` for a non-empty `pat`: every leftmost,
/// non-overlapping occurrence of `pat` is replaced by `rep`.
pub open spec fn replace_all(s: Seq<char>, pat: Seq<char>, rep: Seq<char>) -> Seq<char>
    recommends
        pat.len() > 0,
    decreases s.len(),
{
    if s.len() == 0 || pat.len() == 0 {
        s
    } else if starts_with(s, pat) {
        rep + replace_all(s.skip(pat.len() as int), pat, rep)
    } else {
        seq![s[0]] + replace_all(s.drop_first(), pat, rep)
    }
}

/// Replace every occurrence of `pat` (non-empty) in `s` by `rep`.
pub fn replace_chars(s: &[char], pat: &[char], rep: &[char]) -> (r: Vec<char>)
    requires
        pat@.len() > 0,
    ensures
        r@ == replace_all(s@, pat@, rep@),
{
    let mut out: Vec<char> = Vec::new();
    let mut i: usize = 0;
    assert(s@.skip(0) =~= s@);
    assert(out@ + replace_all(s@, pat@, rep@) =~= replace_all(s@, pat@, rep@));
    while i < s.len()
        invariant
            pat@.len() > 0,
            i <= s@.len(),
            replace_all(s@, pat@, rep@) == out@ + replace_all(s@.skip(i as int), pat@, rep@),
        decreases s@.len() - i,
    {
        let ghost rest = s@.skip(i as int);
        if occurs_at_exec(s, pat, i) {
            assert(rest.take(pat@.len() as int) =~= s@.subrange(i as int, i + pat@.len()));
            assert(starts_with(rest, pat@));
            assert(rest.skip(pat@.len() as int) =~= s@.skip(i + pat@.len()));
            let mut j: usize = 0;
            let ghost before = out@;
            while j < rep.len()
                invariant
                    j <= rep@.len(),
                    out@ == before + rep@.take(j as int),
                decreases rep@.len() - j,
            {
                out.push(rep[j]);
                j = j + 1;
                assert(rep@.take(j as int) =~= rep@.take(j - 1).push(rep@[j - 1]));
            }
            assert(rep@.take(rep@.len() as int) =~= rep@);
            assert(out@ + replace_all(s@.skip(i + pat@.len()), pat@, rep@) =~= before + (rep@
                + replace_all(rest.skip(pat@.len() as int), pat@, rep@)));
            i = i + pat.len();
        } else {
            proof {
                if starts_with(rest, pat@) {
                    assert(rest.take(pat@.len() as int) =~= s@.subrange(
                        i as int,
                        i + pat@.len(),
                    ));
                }
            }
            assert(rest.drop_first() =~= s@.skip(i + 1));
            assert(rest[0] == s@[i as int]);
            let ghost before = out@;
            out.push(s[i]);
            assert(out@ + replace_all(s@.skip(i + 1), pat@, rep@) =~= before + (seq![rest[0]]
                + replace_all(rest.drop_first(), pat@, rep@)));
            i = i + 1;
        }
    }
    assert(s@.skip(i as int) =~= Seq::<char>::empty());
    assert(out@ + Seq::<char>::empty() =~= out@);
    out
}

} // verus!

verus! {

/// Whether `a` and `b` hold the same characters.
pub fn same_text(a: &str, b: &str) -> (r: bool)
    ensures
        r == (a@ == b@),
{
    let x = chars_of(a);
    let y = chars_of(b);
    if x.len() != y.len() {
        assert(x@.len() != y@.len());
        return false;
    }
    let mut i: usize = 0;
    while i < x.len()
        invariant
            x@ == a@,
            y@ == b@,
            x@.len() == y@.len(),
            i <= x@.len(),
            forall|k: int| 0 <= k < i ==> x@[k] == y@[k],
        decreases x@.len() - i,
    {
        if x[i] != y[i] {
            assert(x@[i as int] != y@[i as int]);
            assert(x@ != y@);
            return false;
        }
        i = i + 1;
    }
    assert(x@ =~= y@);
    true
}

/// `a` followed by `b`.
pub fn concat_str(a: &str, b: &str) -> (s: String)
    ensures
        s@ == a@ + b@,
{
    let mut s = String::from_str(a);
    s.append(b);
    s
}

/// The text of each string of a list.
pub open spec fn strings_view(v: Seq<String>) -> Seq<Seq<char>> {
    v.map_values(|s: String| s@)
}

/// Pushing a string pushes its text onto the texts.
pub broadcast proof fn lemma_strings_push(v: Seq<String>, s: String)
    ensures
        #[trigger] strings_view(v.push(s)) == strings_view(v).push(s@),
{
    assert(strings_view(v.push(s)) =~= strings_view(v).push(s@));
}

/// Bytes of the UTF-8 encoding of `s`.
pub open spec fn byte_len(s: Seq<char>) -> nat {
    encode_utf8(s).len()
}

pub proof fn lemma_encode_concat(a: Seq<char>, b: Seq<char>)
    ensures
        encode_utf8(a + b) == encode_utf8(a) + encode_utf8(b),
    decreases a.len(),
{
    if a.len() == 0 {
        assert(a + b =~= b);
        assert(encode_utf8(a) + encode_utf8(b) =~= encode_utf8(b));
    } else {
        assert((a + b).drop_first() =~= a.drop_first() + b);
        lemma_encode_concat(a.drop_first(), b);
        assert(encode_utf8(a + b) =~= encode_utf8(a) + encode_utf8(b));
    }
}

pub proof fn lemma_byte_len_step(s: Seq<char>, k: int)
    requires
        0 <= k < s.len(),
    ensures
        byte_len(s.take(k + 1)) == byte_len(s.take(k)) + encode_scalar(s[k] as u32).len(),
{
    assert(s.take(k + 1) =~= s.take(k) + seq![s[k]]);
    lemma_encode_concat(s.take(k), seq![s[k]]);
    assert(seq![s[k]].drop_first() =~= Seq::<char>::empty());
    assert(encode_utf8(Seq::<char>::empty()) =~= Seq::<u8>::empty());
    assert(encode_utf8(seq![s[k]]) =~= encode_scalar(s[k] as u32));
}

pub proof fn lemma_byte_len_prefix_le(s: Seq<char>, j: int, k: int)
    requires
        0 <= j <= k <= s.len(),
    ensures
        byte_len(s.take(j)) <= byte_len(s.take(k)),
    decreases k - j,
{
    if j < k {
        lemma_byte_len_prefix_le(s, j, k - 1);
        lemma_byte_len_step(s, k - 1);
    }
}

/// The length in bytes of `s` (`str::len`): the length of its UTF-8
/// encoding.
pub fn byte_count(s: &str) -> (n: usize)
    ensures
        n == byte_len(s@),
{
    let bytes = s.as_bytes();
    bytes.len()
}

/// Bytes of the UTF-8 encoding of `c`.
pub fn char_width(c: char) -> (w: usize)
    ensures
        w == encode_scalar(c as u32).len(),
{
    let v: u32 = c as u32;
    if v <= 0x7F {
        1
    } else if v <= 0x7FF {
        2
    } else if v <= 0xFFFF {
        proof {
            vstd::utf8::char_is_scalar(c);
        }
        3
    } else {
        4
    }
}

/// `s` cut at every `'\n'`: the pieces between the line feeds, the last one
/// possibly empty.
pub open spec fn split_nl(s: Seq<char>) -> Seq<Seq<char>>
    decreases s.len(),
{
    if s.len() == 0 {
        seq![Seq::<char>::empty()]
    } else {
        let rest = split_nl(s.drop_last());
        if s.last() == '\n' {
            rest.push(Seq::<char>::empty())
        } else {
            rest.update(rest.len() - 1, rest.last().push(s.last()))
        }
    }
}

/// A piece without the `'\r'` that ends it, if one does.
pub open spec fn strip_cr(p: Seq<char>) -> Seq<char> {
    if p.len() > 0 && p.last() == '\r' {
        p.drop_last()
    } else {
        p
    }
}

/// The lines of `s`, as `str::lines` gives them: the pieces between line
/// feeds, a `'\r'` before a line feed dropped, and no empty line after a
/// final line feed.
pub open spec fn lines_spec(s: Seq<char>) -> Seq<Seq<char>> {
    let parts = split_nl(s);
    let n = parts.len() as int;
    Seq::new(
        (if parts[n - 1].len() == 0 { n - 1 } else { n }) as nat,
        |i: int| if i < n - 1 { strip_cr(parts[i]) } else { parts[i] },
    )
}

pub proof fn lemma_split_nl_nonempty(s: Seq<char>)
    ensures
        split_nl(s).len() >= 1,
    decreases s.len(),
{
    if s.len() > 0 {
        lemma_split_nl_nonempty(s.drop_last());
    }
}

/// The lines of `s`, as `str::lines` splits it.
pub fn text_lines(s: &str) -> (v: Vec<String>)
    ensures
        strings_view(v@) == lines_spec(s@),
{
    let cs = chars_of(s);
    let mut done: Vec<String> = Vec::new();
    let mut cur: Vec<char> = Vec::new();
    let mut i: usize = 0;
    proof {
        assert(cs@.take(0) =~= Seq::<char>::empty());
    }
    while i < cs.len()
        invariant
            i <= cs.len(),
            cs@ == s@,
            split_nl(cs@.take(i as int)).len() == done.len() + 1,
            forall|k: int|
                0 <= k < done.len() ==> #[trigger] done@[k]@ == strip_cr(split_nl(cs@.take(i as int))[k]),
            cur@ == split_nl(cs@.take(i as int)).last(),
        decreases cs.len() - i,
    {
        let ghost before = cs@.take(i as int);
        let c = cs[i];
        proof {
            assert(cs@.take(i + 1).drop_last() =~= before);
            lemma_split_nl_nonempty(before);
        }
        if c == '\n' {
            if cur.len() > 0 && cur[cur.len() - 1] == '\r' {
                cur.pop();
            }
            let piece = string_from_chars(cur.as_slice());
            proof {
                assert(piece@ =~= strip_cr(split_nl(before).last()));
            }
            done.push(piece);
            cur = Vec::new();
        } else {
            cur.push(c);
        }
        i = i + 1;
        proof {
            let after = cs@.take(i as int);
            assert(after.drop_last() =~= before);
            assert forall|k: int| 0 <= k < done.len() implies #[trigger] done@[k]@ == strip_cr(
                split_nl(after)[k],
            ) by {}
            assert(cur@ =~= split_nl(after).last());
        }
    }
    proof {
        assert(cs@.take(cs.len() as int) =~= s@);
    }
    if cur.len() > 0 {
        let last = string_from_chars(cur.as_slice());
        done.push(last);
    }
    assert(strings_view(done@) =~= lines_spec(s@));
    done
}

} // verus!
