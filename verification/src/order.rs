//! Ordering of references: the lexicographic order of texts, and the
//! sorting and de-duplication of a list of them.

use vstd::prelude::*;

verus! {

/// The texts of a sequence of strings.
pub open spec fn texts(strings: Seq<String>) -> Seq<Seq<char>> {
    Seq::new(strings.len(), |i: int| strings[i]@)
}

/// The lexicographic order of two texts, character by character, each
/// character taken by its code point; a proper prefix comes first.
pub open spec fn lex_le(a: Seq<char>, b: Seq<char>) -> bool
    decreases a.len(),
{
    if a.len() == 0 {
        true
    } else if b.len() == 0 {
        false
    } else if a[0] == b[0] {
        lex_le(a.drop_first(), b.drop_first())
    } else {
        (a[0] as u32) < (b[0] as u32)
    }
}

/// No text comes after a later one.
pub open spec fn is_sorted(s: Seq<Seq<char>>) -> bool {
    forall|i: int, j: int| 0 <= i < j < s.len() ==> lex_le(#[trigger] s[i], #[trigger] s[j])
}

/// Each text comes before every later one, and none occurs twice.
pub open spec fn is_strictly_sorted(s: Seq<Seq<char>>) -> bool {
    forall|i: int, j: int|
        0 <= i < j < s.len() ==> lex_le(#[trigger] s[i], #[trigger] s[j]) && s[i] != s[j]
}

/// What is left of a sequence when, of each run of equal neighbours, only
/// one is kept.
pub open spec fn dedup_adjacent(s: Seq<Seq<char>>) -> Seq<Seq<char>>
    decreases s.len(),
{
    if s.len() <= 1 {
        s
    } else if s[0] == s[1] {
        dedup_adjacent(s.drop_first())
    } else {
        seq![s[0]] + dedup_adjacent(s.drop_first())
    }
}

/// Sorts a list of strings in place, by `sort` of std's slices. Believed
/// of it, as its documentation says: the list afterwards holds the same
/// strings, each as often as before, in the order of `str`, which is the
/// lexicographic order of the code points.
#[verifier::external_body]
fn sort_strings(list: &mut Vec<String>)
    ensures
        texts(final(list)@).to_multiset() == texts(old(list)@).to_multiset(),
        is_sorted(texts(final(list)@)),
{
    list.sort();
}

/// Removes repeated neighbours from a list of strings in place, by `dedup`
/// of std's `Vec`. Believed of it, as its documentation says: of each run
/// of equal neighbours one stays.
#[verifier::external_body]
fn dedup_strings(list: &mut Vec<String>)
    ensures
        texts(final(list)@) == dedup_adjacent(texts(old(list)@)),
{
    list.dedup();
}

/// Two texts that each come no later than the other are equal.
pub proof fn lemma_lex_le_antisymmetric(a: Seq<char>, b: Seq<char>)
    requires
        lex_le(a, b),
        lex_le(b, a),
    ensures
        a == b,
    decreases a.len(),
{
    if a.len() == 0 || b.len() == 0 {
        assert(a =~= b);
    } else {
        lemma_lex_le_antisymmetric(a.drop_first(), b.drop_first());
        assert(a =~= seq![a[0]] + a.drop_first());
        assert(b =~= seq![b[0]] + b.drop_first());
    }
}

/// A strictly sorted sequence is determined by the texts that occur in it.
pub proof fn lemma_strictly_sorted_unique(s: Seq<Seq<char>>, t: Seq<Seq<char>>)
    requires
        is_strictly_sorted(s),
        is_strictly_sorted(t),
        forall|x: Seq<char>| s.contains(x) <==> t.contains(x),
    ensures
        s == t,
    decreases s.len(),
{
    if s.len() == 0 {
        if t.len() > 0 {
            assert(t.contains(t[0]));
        }
        assert(s =~= t);
    } else if t.len() == 0 {
        assert(s.contains(s[0]));
    } else {
        assert(s.contains(s[0]));
        assert(t.contains(t[0]));
        let i = choose|i: int| 0 <= i < t.len() && t[i] == s[0];
        let j = choose|j: int| 0 <= j < s.len() && s[j] == t[0];
        if i > 0 {
            if j > 0 {
                lemma_lex_le_antisymmetric(s[0], t[0]);
            }
        }
        assert(s[0] == t[0]);
        let s1 = s.drop_first();
        let t1 = t.drop_first();
        assert forall|x: Seq<char>| s1.contains(x) <==> t1.contains(x) by {
            if s1.contains(x) {
                let k = choose|k: int| 0 <= k < s1.len() && s1[k] == x;
                assert(s[k + 1] == x);
                assert(s.contains(x));
                let m = choose|m: int| 0 <= m < t.len() && t[m] == x;
                assert(m != 0);
                assert(t1[m - 1] == x);
            }
            if t1.contains(x) {
                let k = choose|k: int| 0 <= k < t1.len() && t1[k] == x;
                assert(t[k + 1] == x);
                assert(t.contains(x));
                let m = choose|m: int| 0 <= m < s.len() && s[m] == x;
                assert(m != 0);
                assert(s1[m - 1] == x);
            }
        }
        assert forall|a: int, b: int| 0 <= a < b < s1.len() implies lex_le(
            #[trigger] s1[a],
            #[trigger] s1[b],
        ) && s1[a] != s1[b] by {
            assert(s1[a] == s[a + 1] && s1[b] == s[b + 1]);
        }
        assert forall|a: int, b: int| 0 <= a < b < t1.len() implies lex_le(
            #[trigger] t1[a],
            #[trigger] t1[b],
        ) && t1[a] != t1[b] by {
            assert(t1[a] == t[a + 1] && t1[b] == t[b + 1]);
        }
        lemma_strictly_sorted_unique(s1, t1);
        assert(s =~= seq![s[0]] + s1);
        assert(t =~= seq![t[0]] + t1);
    }
}

/// Of a sorted sequence, what is left without repeated neighbours is
/// strictly sorted, holds the same texts, and starts with the same one.
pub proof fn lemma_dedup_sorted(s: Seq<Seq<char>>)
    requires
        is_sorted(s),
    ensures
        is_strictly_sorted(dedup_adjacent(s)),
        forall|x: Seq<char>| dedup_adjacent(s).contains(x) <==> s.contains(x),
        s.len() > 0 ==> dedup_adjacent(s).len() > 0 && dedup_adjacent(s)[0] == s[0],
    decreases s.len(),
{
    let r = dedup_adjacent(s);
    if s.len() <= 1 {
    } else {
        let tail = s.drop_first();
        let rt = dedup_adjacent(tail);
        assert forall|i: int, j: int| 0 <= i < j < tail.len() implies lex_le(
            #[trigger] tail[i],
            #[trigger] tail[j],
        ) by {
            assert(tail[i] == s[i + 1] && tail[j] == s[j + 1]);
        }
        lemma_dedup_sorted(tail);
        assert(tail[0] == s[1]);
        assert forall|x: Seq<char>| s.contains(x) <==> (x == s[0] || tail.contains(x)) by {
            if s.contains(x) {
                let k = choose|k: int| 0 <= k < s.len() && s[k] == x;
                if k > 0 {
                    assert(tail[k - 1] == x);
                }
            }
            if tail.contains(x) {
                let k = choose|k: int| 0 <= k < tail.len() && tail[k] == x;
                assert(s[k + 1] == x);
            }
            assert(s[0] == s[0]);
        }
        if s[0] == s[1] {
            assert(r == rt);
            assert(tail.contains(s[0]));
        } else {
            assert(r =~= seq![s[0]] + rt);
            assert forall|x: Seq<char>| r.contains(x) <==> s.contains(x) by {
                if r.contains(x) {
                    let k = choose|k: int| 0 <= k < r.len() && r[k] == x;
                    if k > 0 {
                        assert(rt[k - 1] == x);
                        assert(rt.contains(x));
                    }
                }
                if s.contains(x) {
                    if x == s[0] {
                        assert(r[0] == x);
                    } else {
                        assert(rt.contains(x));
                        let k = choose|k: int| 0 <= k < rt.len() && rt[k] == x;
                        assert(r[k + 1] == x);
                    }
                }
            }
            assert forall|i: int, j: int| 0 <= i < j < r.len() implies lex_le(
                #[trigger] r[i],
                #[trigger] r[j],
            ) && r[i] != r[j] by {
                if i == 0 {
                    assert(r[j] == rt[j - 1]);
                    assert(rt.contains(r[j]));
                    assert(tail.contains(r[j]));
                    let k = choose|k: int| 0 <= k < tail.len() && tail[k] == r[j];
                    assert(s[k + 1] == r[j]);
                    assert(lex_le(s[0], s[k + 1]));
                    if r[j] == s[0] {
                        if k > 0 {
                            assert(lex_le(s[1], s[k + 1]));
                        }
                        assert(lex_le(s[0], s[1]));
                        lemma_lex_le_antisymmetric(s[0], s[1]);
                    }
                } else {
                    assert(r[i] == rt[i - 1] && r[j] == rt[j - 1]);
                }
            }
        }
    }
}

/// Sorts a list of strings and removes the duplicates: afterwards the
/// list is strictly ascending and holds exactly the strings it held
/// before.
pub fn sort_and_dedup(list: &mut Vec<String>)
    ensures
        is_strictly_sorted(texts(final(list)@)),
        forall|x: Seq<char>| texts(final(list)@).contains(x) <==> texts(old(list)@).contains(x),
{
    let ghost before = texts(list@);
    sort_strings(list);
    let ghost sorted = texts(list@);
    dedup_strings(list);
    proof {
        lemma_dedup_sorted(sorted);
        assert forall|x: Seq<char>| sorted.contains(x) <==> before.contains(x) by {
            vstd::seq_lib::to_multiset_contains(before, x);
            vstd::seq_lib::to_multiset_contains(sorted, x);
        }
    }
}

} // verus!
