//! How alike two texts are: the share of three-character runs that they have in
//! common.

use vstd::prelude::*;

use crate::text;

verus! {

/// Three characters in a row.
pub type Trigram = (char, char, char);

/// The distinct trigrams of a text, in the order in which they first occur.
pub open spec fn distinct_trigrams(s: Seq<char>) -> Seq<Trigram>
    decreases s.len(),
{
    if s.len() < 3 {
        Seq::empty()
    } else {
        let before = distinct_trigrams(s.drop_last());
        let n = s.len();
        let t = (s[n - 3], s[n - 2], s[n - 1]);
        if before.contains(t) {
            before
        } else {
            before.push(t)
        }
    }
}

/// The trigrams of a text.
pub open spec fn trigram_set(s: Seq<char>) -> Set<Trigram> {
    distinct_trigrams(s).to_set()
}

/// The trigram that begins at index `i`.
pub open spec fn trigram_at(s: Seq<char>, i: int) -> Trigram {
    (s[i], s[i + 1], s[i + 2])
}

/// The distinct trigrams are the trigrams, each once.
pub proof fn lemma_distinct_trigrams(s: Seq<char>)
    ensures
        distinct_trigrams(s).no_duplicates(),
        forall|t: Trigram|
            #[trigger] distinct_trigrams(s).contains(t) <==> exists|i: int|
                0 <= i && i + 2 < s.len() && t == #[trigger] trigram_at(s, i),
    decreases s.len(),
{
    if s.len() >= 3 {
        let front = s.drop_last();
        lemma_distinct_trigrams(front);
        let before = distinct_trigrams(front);
        let n = s.len();
        let all = distinct_trigrams(s);
        assert forall|t: Trigram| #[trigger] all.contains(t) <==> exists|i: int|
            0 <= i && i + 2 < s.len() && t == #[trigger] trigram_at(s, i) by {
            if all.contains(t) {
                if before.contains(t) {
                    let i = choose|i: int|
                        0 <= i && i + 2 < front.len() && t == #[trigger] trigram_at(front, i);
                    assert(t == trigram_at(s, i));
                } else {
                    let k = all.lemma_contains_to_index(t);
                    assert(k == before.len()) by {
                        if k < before.len() {
                            assert(before[k] == t);
                        }
                    }
                    assert(t == trigram_at(s, n - 3));
                }
            }
            if exists|i: int| 0 <= i && i + 2 < s.len() && t == #[trigger] trigram_at(s, i) {
                let i = choose|i: int|
                    0 <= i && i + 2 < s.len() && t == #[trigger] trigram_at(s, i);
                if i + 2 < front.len() {
                    assert(t == trigram_at(front, i));
                    assert(before.contains(t));
                }
                if before.contains(t) {
                    let k = before.lemma_contains_to_index(t);
                    assert(all[k] == t);
                } else {
                    assert(all[before.len() as int] == t);
                }
            }
        }
    }
}

/// How much two texts have in common: so many trigrams of so many.
#[derive(Debug, Clone, Copy, PartialEq, Eq, Structural)]
pub struct Similarity {
    pub shared: u128,
    pub total: u128,
}

/// The distinct trigrams of `s`, in the order in which they first occur.
pub fn trigrams(s: &str) -> (r: Vec<Trigram>)
    ensures
        r@ == distinct_trigrams(s@),
{
    let v = text::chars_of(s);
    let n: usize = v.len();
    let mut out: Vec<Trigram> = Vec::new();
    if n < 3 {
        assert(out@ =~= distinct_trigrams(s@));
        return out;
    }
    let mut i: usize = 2;
    assert(out@ =~= distinct_trigrams(s@.take(2)));
    while i < n
        invariant
            2 <= i <= n,
            n == v@.len(),
            v@ == s@,
            out@ == distinct_trigrams(s@.take(i as int)),
        decreases n - i,
    {
        let t: Trigram = (v[i - 2], v[i - 1], v[i]);
        let known = has_trigram(&out, t);
        proof {
            let next = s@.take(i + 1);
            assert(next.drop_last() =~= s@.take(i as int));
            assert(next[i as int] == v@[i as int] && next[i - 1] == v@[i - 1] && next[i - 2]
                == v@[i - 2]);
        }
        if !known {
            out.push(t);
        }
        i = i + 1;
    }
    assert(s@.take(n as int) =~= s@);
    out
}

fn has_trigram(v: &Vec<Trigram>, t: Trigram) -> (r: bool)
    ensures
        r == v@.contains(t),
{
    let mut i: usize = 0;
    while i < v.len()
        invariant
            i <= v.len(),
            forall|j: int| 0 <= j < i ==> v@[j] != t,
        decreases v.len() - i,
    {
        let x: Trigram = v[i];
        if x.0 == t.0 && x.1 == t.1 && x.2 == t.2 {
            assert(v@[i as int] == t);
            return true;
        }
        i = i + 1;
    }
    false
}

/// How many trigrams `a` and `b` share, and how many they have together. A text of
/// fewer than three characters has none.
pub fn jaccard_trigram(a: &str, b: &str) -> (r: Similarity)
    ensures
        r.shared == trigram_set(a@).intersect(trigram_set(b@)).len(),
        r.total == trigram_set(a@).union(trigram_set(b@)).len(),
{
    let ta = trigrams(a);
    let tb = trigrams(b);
    let ghost sa = trigram_set(a@);
    let ghost sb = trigram_set(b@);
    let mut shared: usize = 0;
    let mut i: usize = 0;
    proof {
        lemma_distinct_trigrams(a@);
        lemma_distinct_trigrams(b@);
        ta@.unique_seq_to_set();
        tb@.unique_seq_to_set();
        vstd::seq_lib::seq_to_set_is_finite(ta@);
        vstd::seq_lib::seq_to_set_is_finite(tb@);
        assert(ta@.take(0).to_set().intersect(sb) =~= Set::empty());
    }
    while i < ta.len()
        invariant
            i <= ta.len(),
            ta@ == distinct_trigrams(a@),
            tb@ == distinct_trigrams(b@),
            sb == tb@.to_set(),
            ta@.no_duplicates(),
            shared <= i,
            ta@.take(i as int).to_set().intersect(sb).finite(),
            shared == ta@.take(i as int).to_set().intersect(sb).len(),
        decreases ta.len() - i,
    {
        let known = has_trigram(&tb, ta[i]);
        proof {
            let t = ta@[i as int];
            let before = ta@.take(i as int);
            assert(ta@.take(i + 1) =~= before.push(t));
            assert(!before.contains(t)) by {
                if before.contains(t) {
                    let k = before.lemma_contains_to_index(t);
                    assert(ta@[k] == t);
                }
            }
            assert(before.push(t).to_set() =~= before.to_set().insert(t)) by {
                before.lemma_push_to_set_commute(t);
            }
            if known {
                assert(before.push(t).to_set().intersect(sb) =~= before.to_set().intersect(
                    sb,
                ).insert(t));
            } else {
                assert(before.push(t).to_set().intersect(sb) =~= before.to_set().intersect(sb));
            }
        }
        if known {
            shared = shared + 1;
        }
        i = i + 1;
    }
    proof {
        assert(ta@.take(i as int) =~= ta@);
        vstd::set_lib::lemma_set_intersect_union_lens(sa, sb);
    }
    proof {
        vstd::set_lib::lemma_len_intersect(sb, sa);
        assert(sb.intersect(sa) =~= sa.intersect(sb));
    }
    Similarity {
        shared: shared as u128,
        total: ta.len() as u128 + tb.len() as u128 - shared as u128,
    }
}

/// It does not matter which of two texts comes first.
pub proof fn similarity_is_symmetric(a: Seq<char>, b: Seq<char>)
    ensures
        trigram_set(a).intersect(trigram_set(b)).len() == trigram_set(b).intersect(
            trigram_set(a),
        ).len(),
        trigram_set(a).union(trigram_set(b)).len() == trigram_set(b).union(trigram_set(a)).len(),
{
    assert(trigram_set(a).intersect(trigram_set(b)) =~= trigram_set(b).intersect(trigram_set(a)));
    assert(trigram_set(a).union(trigram_set(b)) =~= trigram_set(b).union(trigram_set(a)));
}

/// Two texts never share more trigrams than they have together, and a text shares
/// all of its own with itself.
pub proof fn similarity_is_at_most_one(a: Seq<char>, b: Seq<char>)
    ensures
        trigram_set(a).intersect(trigram_set(b)).len() <= trigram_set(a).union(
            trigram_set(b),
        ).len(),
        trigram_set(a).intersect(trigram_set(a)).len() == trigram_set(a).union(
            trigram_set(a),
        ).len(),
{
    let sa = trigram_set(a);
    let sb = trigram_set(b);
    vstd::seq_lib::seq_to_set_is_finite(distinct_trigrams(a));
    vstd::seq_lib::seq_to_set_is_finite(distinct_trigrams(b));
    vstd::set_lib::lemma_len_subset(sa.intersect(sb), sa.union(sb));
    assert(sa.intersect(sa) =~= sa.union(sa));
}

} // verus!
