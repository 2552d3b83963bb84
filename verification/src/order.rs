//! Lexicographic order on texts, and sorting by it.

use vstd::prelude::*;
use vstd::relations::*;
use vstd::seq_lib::*;

use crate::text::chars_of;

verus! {

/// The lexicographic order on sequences whose elements are ordered by `le`:
/// the first difference decides, and a proper prefix comes first.
pub open spec fn lex_le<A>(le: spec_fn(A, A) -> bool, a: Seq<A>, b: Seq<A>) -> bool
    decreases a.len(),
{
    if a.len() == 0 {
        true
    } else if b.len() == 0 {
        false
    } else if a[0] != b[0] {
        le(a[0], b[0])
    } else {
        lex_le(le, a.skip(1), b.skip(1))
    }
}

/// The order of characters by code point.
pub open spec fn char_order() -> spec_fn(char, char) -> bool {
    |a: char, b: char| (a as u32) <= (b as u32)
}

/// The order of texts.
pub open spec fn text_order() -> spec_fn(Seq<char>, Seq<char>) -> bool {
    |a: Seq<char>, b: Seq<char>| lex_le(char_order(), a, b)
}

/// The order of rows of texts.
pub open spec fn row_order() -> spec_fn(Seq<Seq<char>>, Seq<Seq<char>>) -> bool {
    |a: Seq<Seq<char>>, b: Seq<Seq<char>>| lex_le(text_order(), a, b)
}

proof fn lex_le_reflexive<A>(le: spec_fn(A, A) -> bool, a: Seq<A>)
    ensures
        lex_le(le, a, a),
    decreases a.len(),
{
    if a.len() > 0 {
        lex_le_reflexive(le, a.skip(1));
    }
}

proof fn lex_le_antisymmetric<A>(le: spec_fn(A, A) -> bool, a: Seq<A>, b: Seq<A>)
    requires
        total_ordering(le),
        lex_le(le, a, b),
        lex_le(le, b, a),
    ensures
        a == b,
    decreases a.len(),
{
    if a.len() > 0 && b.len() > 0 {
        if a[0] == b[0] {
            lex_le_antisymmetric(le, a.skip(1), b.skip(1));
            assert(a =~= seq![a[0]] + a.skip(1));
            assert(b =~= seq![b[0]] + b.skip(1));
        } else {
            assert(le(a[0], b[0]) && le(b[0], a[0]));
        }
    } else {
        assert(a =~= b);
    }
}

proof fn lex_le_transitive<A>(le: spec_fn(A, A) -> bool, a: Seq<A>, b: Seq<A>, c: Seq<A>)
    requires
        total_ordering(le),
        lex_le(le, a, b),
        lex_le(le, b, c),
    ensures
        lex_le(le, a, c),
    decreases a.len(),
{
    if a.len() > 0 && b.len() > 0 && c.len() > 0 {
        if a[0] == b[0] && b[0] == c[0] {
            lex_le_transitive(le, a.skip(1), b.skip(1), c.skip(1));
        } else if a[0] != b[0] && b[0] != c[0] {
            assert(le(a[0], b[0]) && le(b[0], c[0]));
            assert(le(a[0], c[0]));
            if a[0] == c[0] {
                assert(le(b[0], a[0]));
            }
        }
    }
}

proof fn lex_le_total<A>(le: spec_fn(A, A) -> bool, a: Seq<A>, b: Seq<A>)
    requires
        total_ordering(le),
    ensures
        lex_le(le, a, b) || lex_le(le, b, a),
    decreases a.len(),
{
    if a.len() > 0 && b.len() > 0 {
        if a[0] == b[0] {
            lex_le_total(le, a.skip(1), b.skip(1));
        } else {
            assert(le(a[0], b[0]) || le(b[0], a[0]));
        }
    }
}

/// The lexicographic order over a total order is total.
pub proof fn lemma_lex_total_ordering<A>(le: spec_fn(A, A) -> bool)
    requires
        total_ordering(le),
    ensures
        total_ordering(|a: Seq<A>, b: Seq<A>| lex_le(le, a, b)),
{
    let r = |a: Seq<A>, b: Seq<A>| lex_le(le, a, b);
    assert forall|a: Seq<A>| #[trigger] r(a, a) by {
        lex_le_reflexive(le, a);
    }
    assert forall|a: Seq<A>, b: Seq<A>| #[trigger] r(a, b) && #[trigger] r(b, a) implies a == b by {
        lex_le_antisymmetric(le, a, b);
    }
    assert forall|a: Seq<A>, b: Seq<A>, c: Seq<A>| #[trigger] r(a, b) && #[trigger] r(b, c) implies r(a, c) by {
        lex_le_transitive(le, a, b, c);
    }
    assert forall|a: Seq<A>, b: Seq<A>| #[trigger] r(a, b) || #[trigger] r(b, a) by {
        lex_le_total(le, a, b);
    }
}

/// Texts, and rows of texts, are totally ordered.
pub proof fn lemma_text_orders()
    ensures
        total_ordering(char_order()),
        total_ordering(text_order()),
        total_ordering(row_order()),
{
    let c = char_order();
    assert(reflexive(c));
    assert(antisymmetric(c)) by {
        assert forall|a: char, b: char| #[trigger] c(a, b) && #[trigger] c(b, a) implies a == b by {
            vstd::utf8::char_u32_cast(a, a as u32);
            vstd::utf8::char_u32_cast(b, b as u32);
        }
    }
    assert(transitive(c));
    assert(strongly_connected(c));
    lemma_lex_total_ordering(char_order());
    lemma_lex_total_ordering(text_order());
}

/// Whether `a` comes before `b` or is equal to it.
pub fn text_le(a: &str, b: &str) -> (r: bool)
    ensures
        r == text_order()(a@, b@),
{
    let x = chars_of(a);
    let y = chars_of(b);
    let mut i: usize = 0;
    assert(a@.skip(0) =~= a@);
    assert(b@.skip(0) =~= b@);
    while i < x.len() && i < y.len() && x[i] == y[i]
        invariant
            x@ == a@,
            y@ == b@,
            i <= x.len(),
            i <= y.len(),
            lex_le(char_order(), a@, b@) == lex_le(char_order(), a@.skip(i as int), b@.skip(i as int)),
        decreases x.len() - i,
    {
        assert(a@.skip(i as int).skip(1) =~= a@.skip(i + 1));
        assert(b@.skip(i as int).skip(1) =~= b@.skip(i + 1));
        i += 1;
    }
    if i == x.len() {
        true
    } else if i == y.len() {
        false
    } else {
        (x[i] as u32) <= (y[i] as u32)
    }
}

/// What is sorted by a rank.
pub trait Ranked: Sized {
    type Rank;

    /// By what the value is sorted.
    spec fn rank(&self) -> Self::Rank;

    /// The order of the ranks.
    spec fn order() -> spec_fn(Self::Rank, Self::Rank) -> bool;

    /// The ranks are totally ordered.
    proof fn order_is_total()
        ensures
            total_ordering(Self::order()),
    ;

    /// Whether `self` comes before `other`, or has the same rank.
    fn rank_le(&self, other: &Self) -> (r: bool)
        ensures
            r == Self::order()(self.rank(), other.rank()),
    ;
}

impl Ranked for String {
    type Rank = Seq<char>;

    open spec fn rank(&self) -> Seq<char> {
        self@
    }

    open spec fn order() -> spec_fn(Seq<char>, Seq<char>) -> bool {
        text_order()
    }

    proof fn order_is_total() {
        lemma_text_orders();
    }

    fn rank_le(&self, other: &Self) -> (r: bool) {
        text_le(self.as_str(), other.as_str())
    }
}

/// The ranks of a sequence of values.
pub open spec fn ranks<T: Ranked>(s: Seq<T>) -> Seq<T::Rank> {
    s.map_values(|e: T| e.rank())
}

/// The values of `v` in the order of their ranks.
pub fn sort_ranked<T: Ranked>(v: Vec<T>) -> (r: Vec<T>)
    ensures
        r@.to_multiset() == v@.to_multiset(),
        ranks(r@) == ranks(v@).sort_by(T::order()),
{
    let ghost all = v@;
    let mut rest: Vec<T> = v;
    let mut out: Vec<T> = Vec::new();
    proof {
        T::order_is_total();
        broadcast use group_to_multiset_ensures;

        assert(out@.to_multiset().add(rest@.to_multiset()) =~= all.to_multiset());
        assert(ranks(out@).to_multiset().add(ranks(rest@).to_multiset()) =~= ranks(
            all,
        ).to_multiset());
    }
    while rest.len() > 0
        invariant
            total_ordering(T::order()),
            sorted_by(ranks(out@), T::order()),
            out@.to_multiset().add(rest@.to_multiset()) == all.to_multiset(),
            ranks(out@).to_multiset().add(ranks(rest@).to_multiset()) == ranks(all).to_multiset(),
        decreases rest.len(),
    {
        let ghost before = rest@;
        let ghost sorted = out@;
        let item: T = rest.remove(0);
        let ghost one = item;
        let mut k: usize = out.len();
        while k > 0 && item.rank_le(&out[k - 1])
            invariant
                k <= out.len(),
                item == one,
                out@ == sorted,
                forall|j: int| k <= j < out@.len() ==> T::order()(one.rank(), #[trigger] out@[j].rank()),
            decreases k,
        {
            k -= 1;
        }
        out.insert(k, item);
        proof {
            broadcast use group_to_multiset_ensures;

            to_multiset_insert(sorted, k as int, one);
            to_multiset_insert(ranks(sorted), k as int, one.rank());
            assert(ranks(sorted.insert(k as int, one)) =~= ranks(sorted).insert(
                k as int,
                one.rank(),
            ));
            assert(ranks(before.remove(0)) =~= ranks(before).remove(0));
            assert(ranks(before)[0] == one.rank());
            assert(before.to_multiset().count(one) > 0) by {
                assert(before[0] == one);
            }
            assert(ranks(before).to_multiset().count(one.rank()) > 0) by {
                assert(ranks(before)[0] == one.rank());
                assert(ranks(before).contains(one.rank()));
            }
            assert(out@.to_multiset().add(rest@.to_multiset()) =~= sorted.to_multiset().add(
                before.to_multiset(),
            ));
            assert(ranks(out@).to_multiset().add(ranks(rest@).to_multiset()) =~= ranks(
                sorted,
            ).to_multiset().add(ranks(before).to_multiset()));
            lemma_insert_sorted(ranks(sorted), k as int, one.rank(), T::order());
        }
    }
    proof {
        broadcast use group_to_multiset_ensures;

        assert(rest@ =~= Seq::<T>::empty());
        assert(ranks(rest@) =~= Seq::empty());
        assert(out@.to_multiset() =~= all.to_multiset());
        assert(ranks(out@).to_multiset() =~= ranks(all).to_multiset());
        ranks(all).lemma_sort_by_ensures(T::order());
        lemma_sorted_unique(ranks(out@), ranks(all).sort_by(T::order()), T::order());
    }
    out
}

proof fn lemma_insert_sorted<A>(s: Seq<A>, k: int, a: A, le: spec_fn(A, A) -> bool)
    requires
        total_ordering(le),
        sorted_by(s, le),
        0 <= k <= s.len(),
        forall|j: int| k <= j < s.len() ==> le(a, #[trigger] s[j]),
        k > 0 ==> le(s[k - 1], a),
    ensures
        sorted_by(s.insert(k, a), le),
{
    let t = s.insert(k, a);
    assert forall|i: int, j: int| 0 <= i < j < t.len() implies #[trigger] le(t[i], t[j]) by {
        if i < k && j < k {
            assert(le(s[i], s[j]));
        } else if i < k && j == k {
            if i < k - 1 {
                assert(le(s[i], s[k - 1]));
            }
            assert(le(s[i], a));
        } else if i < k {
            assert(le(s[i], s[j - 1]));
        } else if i == k {
            assert(le(a, s[j - 1]));
        } else {
            assert(le(s[i - 1], s[j - 1]));
        }
    }
}

} // verus!
