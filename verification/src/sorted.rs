//! Lexicographic order on text, as `str` orders it (by code point), and
//! sorted, duplicate-free lists of strings.

use vstd::prelude::*;
use crate::text::{chars_of, strings_view};

verus! {

/// `a` sorts strictly before `b`: the first differing character is smaller,
/// or `a` is a proper prefix of `b`.
pub open spec fn lex_lt(a: Seq<char>, b: Seq<char>) -> bool
    decreases a.len(),
{
    if a.len() == 0 {
        b.len() > 0
    } else if b.len() == 0 {
        false
    } else if (a[0] as int) < (b[0] as int) {
        true
    } else if a[0] == b[0] {
        lex_lt(a.drop_first(), b.drop_first())
    } else {
        false
    }
}

pub proof fn lemma_lex_irreflexive(a: Seq<char>)
    ensures
        !lex_lt(a, a),
    decreases a.len(),
{
    if a.len() > 0 {
        lemma_lex_irreflexive(a.drop_first());
    }
}

pub proof fn lemma_lex_asymmetric(a: Seq<char>, b: Seq<char>)
    requires
        lex_lt(a, b),
    ensures
        !lex_lt(b, a),
    decreases a.len(),
{
    if a.len() > 0 && b.len() > 0 && a[0] == b[0] {
        lemma_lex_asymmetric(a.drop_first(), b.drop_first());
    }
}

pub proof fn lemma_lex_total(a: Seq<char>, b: Seq<char>)
    requires
        a != b,
    ensures
        lex_lt(a, b) || lex_lt(b, a),
    decreases a.len(),
{
    if a.len() > 0 && b.len() > 0 && a[0] == b[0] {
        if a.drop_first() == b.drop_first() {
            assert(a =~= seq![a[0]] + a.drop_first());
            assert(b =~= seq![b[0]] + b.drop_first());
        }
        lemma_lex_total(a.drop_first(), b.drop_first());
    } else if a.len() > 0 && b.len() > 0 {
        assert((a[0] as int) != (b[0] as int));
    } else if a.len() == 0 && b.len() == 0 {
        assert(a =~= b);
    }
}

pub proof fn lemma_lex_transitive(a: Seq<char>, b: Seq<char>, c: Seq<char>)
    requires
        lex_lt(a, b),
        lex_lt(b, c),
    ensures
        lex_lt(a, c),
    decreases a.len(),
{
    if a.len() > 0 && a[0] == b[0] && b[0] == c[0] {
        lemma_lex_transitive(a.drop_first(), b.drop_first(), c.drop_first());
    }
}

proof fn lemma_lex_step(a: Seq<char>, b: Seq<char>, i: int)
    requires
        0 <= i < a.len(),
        i < b.len(),
        a[i] == b[i],
    ensures
        lex_lt(a.skip(i), b.skip(i)) == lex_lt(a.skip(i + 1), b.skip(i + 1)),
{
    assert(a.skip(i).drop_first() =~= a.skip(i + 1));
    assert(b.skip(i).drop_first() =~= b.skip(i + 1));
}

/// Whether `a` sorts strictly before `b`.
pub fn lex_less(a: &[char], b: &[char]) -> (r: bool)
    ensures
        r == lex_lt(a@, b@),
{
    let mut i: usize = 0;
    assert(a@.skip(0) =~= a@);
    assert(b@.skip(0) =~= b@);
    while i < a.len() && i < b.len()
        invariant
            i <= a@.len(),
            i <= b@.len(),
            lex_lt(a@, b@) == lex_lt(a@.skip(i as int), b@.skip(i as int)),
        decreases a@.len() - i,
    {
        if a[i] != b[i] {
            assert(a@.skip(i as int)[0] == a@[i as int]);
            assert(b@.skip(i as int)[0] == b@[i as int]);
            return a[i] < b[i];
        }
        proof {
            lemma_lex_step(a@, b@, i as int);
        }
        i = i + 1;
    }
    a.len() < b.len()
}

/// Every item sorts strictly before every later one.
pub open spec fn strictly_sorted(s: Seq<Seq<char>>) -> bool {
    forall|i: int, j: int| 0 <= i < j < s.len() ==> lex_lt(#[trigger] s[i], #[trigger] s[j])
}

/// A strictly sorted list holds no item twice.
pub proof fn lemma_strictly_sorted_unique(s: Seq<Seq<char>>)
    requires
        strictly_sorted(s),
    ensures
        s.no_duplicates(),
{
    assert forall|i: int, j: int| 0 <= i < s.len() && 0 <= j < s.len() && i != j implies s[i] != s[j] by {
        if i < j {
            lemma_lex_irreflexive(s[i]);
        } else {
            lemma_lex_irreflexive(s[j]);
        }
    }
}

/// Insert `x` into a strictly sorted list, unless it is already there.
pub fn insert_sorted(v: &mut Vec<String>, x: String)
    requires
        strictly_sorted(strings_view(old(v)@)),
    ensures
        strictly_sorted(strings_view(final(v)@)),
        strings_view(final(v)@).to_set() == strings_view(old(v)@).to_set().insert(x@),
{
    let ghost old_v = strings_view(v@);
    let xc = chars_of(x.as_str());
    let mut i: usize = 0;
    let mut found = false;
    while i < v.len()
        invariant_except_break
            forall|j: int| 0 <= j < i ==> lex_lt(#[trigger] strings_view(v@)[j], x@),
            !found,
        invariant
            i <= v@.len(),
            strings_view(v@) == old_v,
            strictly_sorted(old_v),
            xc@ == x@,
        ensures
            forall|j: int| 0 <= j < i ==> lex_lt(#[trigger] strings_view(v@)[j], x@),
            i < v@.len() ==> !lex_lt(strings_view(v@)[i as int], x@),
            found ==> i < v@.len() && strings_view(v@)[i as int] == x@,
            !found ==> i < v@.len() ==> strings_view(v@)[i as int] != x@,
        decreases v@.len() - i,
    {
        let vc = chars_of(v[i].as_str());
        assert(strings_view(v@)[i as int] == v@[i as int]@);
        if !lex_less(&vc, &xc) {
            if lex_less(&xc, &vc) {
                found = false;
            } else {
                proof {
                    if v@[i as int]@ != x@ {
                        lemma_lex_total(v@[i as int]@, x@);
                    }
                }
                found = true;
            }
            proof {
                if !found {
                    lemma_lex_irreflexive(x@);
                }
            }
            break;
        }
        i = i + 1;
    }
    if found {
        assert(strings_view(v@).to_set() =~= old_v.to_set().insert(x@)) by {
            assert(old_v.contains(x@)) by {
                assert(old_v[i as int] == x@);
            }
        }
    } else {
        let ghost before = v@;
        proof {
            if i < v@.len() {
                lemma_lex_total(strings_view(v@)[i as int], x@);
            }
        }
        assert forall|k: int| i <= k < old_v.len() implies lex_lt(x@, #[trigger] old_v[k]) by {
            if k > i {
                lemma_lex_transitive(x@, old_v[i as int], old_v[k]);
            }
        }
        v.insert(i, x);
        assert(strings_view(v@) =~= old_v.insert(i as int, x@));
        assert forall|a: int, b: int| 0 <= a < b < strings_view(v@).len() implies lex_lt(
            #[trigger] strings_view(v@)[a],
            #[trigger] strings_view(v@)[b],
        ) by {
            if b < i {
            } else if a < i && b == i {
            } else if a < i && b > i {
                assert(lex_lt(old_v[a], x@));
                assert(lex_lt(x@, old_v[b - 1]));
                lemma_lex_transitive(old_v[a], x@, old_v[b - 1]);
            } else if a == i {
                assert(lex_lt(x@, old_v[b - 1]));
            } else {
                assert(strings_view(v@)[a] == old_v[a - 1]);
                assert(strings_view(v@)[b] == old_v[b - 1]);
            }
        }
        assert(strings_view(v@).to_set() =~= old_v.to_set().insert(x@)) by {
            assert forall|s: Seq<char>| strings_view(v@).to_set().contains(s) <==> old_v.to_set().insert(x@).contains(s) by {
                if strings_view(v@).contains(s) {
                    let k = choose|k: int| 0 <= k < strings_view(v@).len() && strings_view(v@)[k] == s;
                    if k < i {
                        assert(old_v[k] == s);
                    } else if k > i {
                        assert(old_v[k - 1] == s);
                    }
                }
                if old_v.contains(s) {
                    let k = choose|k: int| 0 <= k < old_v.len() && old_v[k] == s;
                    if k < i {
                        assert(strings_view(v@)[k] == s);
                    } else {
                        assert(strings_view(v@)[k + 1] == s);
                    }
                }
                if s == x@ {
                    assert(strings_view(v@)[i as int] == s);
                }
            }
        }
    }
}

/// The items of `items`, sorted and with duplicates removed.
pub fn sort_dedup(items: Vec<String>) -> (r: Vec<String>)
    ensures
        strictly_sorted(strings_view(r@)),
        strings_view(r@).to_set() == strings_view(items@).to_set(),
{
    let mut r: Vec<String> = Vec::new();
    let mut i: usize = 0;
    assert(strings_view(items@).take(0).to_set() =~= Set::empty());
    assert(strings_view(r@).to_set() =~= Set::empty());
    while i < items.len()
        invariant
            i <= items@.len(),
            strictly_sorted(strings_view(r@)),
            strings_view(r@).to_set() == strings_view(items@).take(i as int).to_set(),
        decreases items@.len() - i,
    {
        let x = items[i].clone();
        insert_sorted(&mut r, x);
        assert(strings_view(items@).take(i + 1) =~= strings_view(items@).take(i as int).push(items@[i as int]@));
        proof {
            strings_view(items@).take(i as int).lemma_push_to_set_commute(items@[i as int]@);
        }
        i = i + 1;
    }
    assert(strings_view(items@).take(i as int) =~= strings_view(items@));
    r
}

proof fn lemma_first_is_least(a: Seq<Seq<char>>, b: Seq<Seq<char>>)
    requires
        strictly_sorted(a),
        strictly_sorted(b),
        a.to_set() == b.to_set(),
        a.len() > 0,
    ensures
        b.len() > 0,
        a[0] == b[0],
{
    assert(a.to_set().contains(a[0]));
    assert(b.to_set().contains(a[0]));
    let k = choose|k: int| 0 <= k < b.len() && b[k] == a[0];
    assert(b.contains(a[0]));
    assert(b.to_set().contains(b[0]));
    assert(a.to_set().contains(b[0]));
    assert(a.contains(b[0]));
    let m = choose|m: int| 0 <= m < a.len() && a[m] == b[0];
    if a[0] != b[0] {
        assert(k > 0);
        assert(lex_lt(b[0], b[k]));
        assert(m > 0);
        assert(lex_lt(a[0], a[m]));
        lemma_lex_asymmetric(a[0], b[0]);
    }
}

/// Two sorted, duplicate-free lists with the same items are the same list:
/// such a list depends only on its set of items, not on the order in which
/// they were gathered.
pub proof fn law_sorted_list_is_determined_by_its_items(a: Seq<Seq<char>>, b: Seq<Seq<char>>)
    requires
        strictly_sorted(a),
        strictly_sorted(b),
        a.to_set() == b.to_set(),
    ensures
        a == b,
    decreases a.len(),
{
    if a.len() == 0 {
        if b.len() > 0 {
            assert(b.to_set().contains(b[0]));
            assert(a.to_set().contains(b[0]));
        }
        assert(a =~= b);
    } else {
        lemma_first_is_least(a, b);
        let a1 = a.drop_first();
        let b1 = b.drop_first();
        lemma_strictly_sorted_unique(a);
        lemma_strictly_sorted_unique(b);
        assert(strictly_sorted(a1)) by {
            assert forall|i: int, j: int| 0 <= i < j < a1.len() implies lex_lt(#[trigger] a1[i], #[trigger] a1[j]) by {
                assert(a1[i] == a[i + 1] && a1[j] == a[j + 1]);
            }
        }
        assert(strictly_sorted(b1)) by {
            assert forall|i: int, j: int| 0 <= i < j < b1.len() implies lex_lt(#[trigger] b1[i], #[trigger] b1[j]) by {
                assert(b1[i] == b[i + 1] && b1[j] == b[j + 1]);
            }
        }
        assert(a1.to_set() =~= b1.to_set()) by {
            assert forall|x: Seq<char>| a1.to_set().contains(x) implies b1.to_set().contains(x) by {
                let i = choose|i: int| 0 <= i < a1.len() && a1[i] == x;
                assert(a.contains(x) && a[i + 1] == x);
                assert(a.to_set().contains(x));
                assert(b.to_set().contains(x));
                let j = choose|j: int| 0 <= j < b.len() && b[j] == x;
                if j == 0 {
                    assert(a[0] == b[0]);
                    assert(false);
                }
                assert(b1[j - 1] == x);
                assert(b1.contains(x));
            }
            assert forall|x: Seq<char>| b1.to_set().contains(x) implies a1.to_set().contains(x) by {
                let j = choose|j: int| 0 <= j < b1.len() && b1[j] == x;
                assert(b.contains(x) && b[j + 1] == x);
                assert(b.to_set().contains(x));
                assert(a.to_set().contains(x));
                let i = choose|i: int| 0 <= i < a.len() && a[i] == x;
                if i == 0 {
                    assert(a[0] == b[0]);
                    assert(false);
                }
                assert(a1[i - 1] == x);
                assert(a1.contains(x));
            }
        }
        law_sorted_list_is_determined_by_its_items(a1, b1);
        assert(a =~= seq![a[0]] + a1);
        assert(b =~= seq![b[0]] + b1);
    }
}

} // verus!
