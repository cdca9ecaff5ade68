//! Ordered multisets of field elements.
//!
//! A [`MultiSet`] backs a column of a lookup table or the lookup values of a
//! wire. Its view is the sequence of its elements.

use crate::error::Error;
use crate::field::{add_mod, le_value, modulus, mul_mod, Scalar};
use crate::lookup::counts::Counts;
use crate::poly::{ifft_coefficients, trimmed, values, EvaluationDomain, Polynomial};
use crate::util::{check_power_of_two, is_power_of_two};
use vstd::prelude::*;

verus! {

/// A sequence of field elements in which an element may occur more than once.
#[derive(Clone, Debug, PartialEq, Eq)]
pub struct MultiSet(pub Vec<Scalar>);

/// How often `e` occurs in `s`.
pub open spec fn occurrences(s: Seq<Scalar>, e: Scalar) -> nat {
    s.to_multiset().count(e)
}

/// `n` copies of `e`.
pub open spec fn repeat(e: Scalar, n: nat) -> Seq<Scalar> {
    Seq::new(n, |i: int| e)
}

/// Whether every element of `f` occurs in `t`.
pub open spec fn covers(t: Seq<Scalar>, f: Seq<Scalar>) -> bool {
    forall|j: int| 0 <= j < f.len() ==> t.contains(#[trigger] f[j])
}

/// The elements at the even positions of a sequence, in their order.
pub open spec fn even_entries(s: Seq<Scalar>) -> Seq<Scalar> {
    Seq::new(((s.len() + 1) / 2) as nat, |k: int| s[2 * k])
}

/// The elements at the odd positions of a sequence, in their order.
pub open spec fn odd_entries(s: Seq<Scalar>) -> Seq<Scalar> {
    Seq::new((s.len() / 2) as nat, |k: int| s[2 * k + 1])
}

/// Whether `s` is the combined multiset of `t` and `f` in ascending order:
/// it holds every element as often as `t` and `f` hold it together, the
/// least first.
pub open spec fn is_sorted_union(s: Seq<Scalar>, t: Seq<Scalar>, f: Seq<Scalar>) -> bool {
    sorted(s) && s.to_multiset() == t.to_multiset().add(f.to_multiset())
}

/// What the first `i` entries of the table `t` contribute to the combined
/// multiset of `t` and `f`: for every element, where the table first names
/// it, all its copies in `t` and `f` together.
spec fn laid(t: Seq<Scalar>, f: Seq<Scalar>, i: nat) -> Seq<Scalar>
    decreases i,
{
    if i == 0 {
        Seq::empty()
    } else {
        let before = laid(t, f, (i - 1) as nat);
        let e = t[i - 1];
        if t.take(i - 1).contains(e) {
            before
        } else {
            before + repeat(e, occurrences(t, e) + occurrences(f, e))
        }
    }
}

/// The two halves after the first `i` entries of the table `t` have been
/// dealt out, and whether the next odd copy goes to the second half. Of the
/// copies of an element each half takes half, and an odd copy goes to the
/// halves in turn.
spec fn dealt(t: Seq<Scalar>, f: Seq<Scalar>, i: nat) -> (Seq<Scalar>, Seq<Scalar>, bool)
    decreases i,
{
    if i == 0 {
        (Seq::empty(), Seq::empty(), false)
    } else {
        let (evens, odds, parity) = dealt(t, f, (i - 1) as nat);
        let e = t[i - 1];
        if t.take(i - 1).contains(e) {
            (evens, odds, parity)
        } else {
            let c = occurrences(t, e) + occurrences(f, e);
            let half = repeat(e, c / 2);
            if c % 2 == 0 {
                (evens + half, odds + half, parity)
            } else if parity {
                (evens + half, (odds + half).push(e), false)
            } else {
                ((evens + half).push(e), odds + half, true)
            }
        }
    }
}

/// A multiset as padding finds it: an empty one has taken a zero.
pub open spec fn pad_base(s: Seq<Scalar>) -> Seq<Scalar> {
    if s.len() == 0 {
        seq![Scalar::spec_zero()]
    } else {
        s
    }
}

/// A multiset extended to `n` elements by copies of its first element.
pub open spec fn padded(s: Seq<Scalar>, n: nat) -> Seq<Scalar> {
    let base = pad_base(s);
    base + repeat(base[0], (n - base.len()) as nat)
}

/// The random linear combination, by Horner's rule, of the entries that the
/// multisets from the `k`-th on hold at position `i`: the `k`-th entry plus
/// `alpha` times the combination of the later ones.
pub open spec fn compressed_at(multisets: Seq<MultiSet>, alpha: nat, i: int, k: nat) -> nat
    decreases multisets.len() - k,
{
    if k >= multisets.len() {
        0
    } else {
        add_mod(mul_mod(compressed_at(multisets, alpha, i, k + 1), alpha), multisets[k as int]@[i]@)
    }
}

/// Whether the elements stand in the order of their representatives, the
/// least first.
pub open spec fn sorted(s: Seq<Scalar>) -> bool {
    forall|i: int, j: int| 0 <= i <= j < s.len() ==> s[i]@ <= s[j]@
}

/// No element occurs more often than the sequence is long.
proof fn lemma_occurrences_bound(s: Seq<Scalar>, e: Scalar)
    ensures
        occurrences(s, e) <= s.len(),
        s.contains(e) <==> occurrences(s, e) > 0,
{
    broadcast use vstd::seq_lib::group_to_multiset_ensures;
    broadcast use vstd::multiset::group_multiset_axioms;

    assert(s.to_multiset().len() == s.len());
}

/// Counting in a sequence that grows by one element.
proof fn lemma_occurrences_push(s: Seq<Scalar>, x: Scalar, e: Scalar)
    ensures
        occurrences(s.push(x), e) == occurrences(s, e) + if x == e {
            1nat
        } else {
            0nat
        },
{
    broadcast use vstd::seq_lib::group_to_multiset_ensures;
    broadcast use vstd::multiset::group_multiset_axioms;

}

/// The prefix of length `i + 1` is the prefix of length `i` with one more
/// element.
proof fn lemma_take_push(s: Seq<Scalar>, i: int)
    requires
        0 <= i < s.len(),
    ensures
        s.take(i + 1) =~= s.take(i).push(s[i]),
        s.take(i + 1).contains(s[i]),
        forall|e: Scalar| s.take(i + 1).contains(e) <==> (s.take(i).contains(e) || e == s[i]),
{
    let a = s.take(i + 1);
    let b = s.take(i).push(s[i]);
    assert(a =~= b);
    assert(a[i] == s[i]);
    assert forall|e: Scalar| a.contains(e) <==> (s.take(i).contains(e) || e == s[i]) by {
        if a.contains(e) {
            let k = choose|k: int| 0 <= k < a.len() && a[k] == e;
            if k < i {
                assert(s.take(i)[k] == e);
            }
        }
        if s.take(i).contains(e) {
            let k = choose|k: int| 0 <= k < s.take(i).len() && s.take(i)[k] == e;
            assert(a[k] == e);
        }
    }
}

/// Ordering determines the outcome: two sequences that hold the same
/// elements as often, each ordered by the representatives of its elements,
/// are the same sequence. So what `sorted_concat` leaves behind depends on
/// nothing but the elements that went in.
pub proof fn lemma_sorted_is_unique(a: Seq<Scalar>, b: Seq<Scalar>)
    requires
        sorted(a),
        sorted(b),
        a.to_multiset() == b.to_multiset(),
    ensures
        a == b,
{
    let leq = |x: Scalar, y: Scalar| x@ <= y@;
    assert(vstd::relations::total_ordering(leq)) by {
        assert forall|x: Scalar, y: Scalar| #[trigger] leq(x, y) && #[trigger] leq(y, x) implies x
            == y by {
            Scalar::lemma_view_injective(x, y);
        }
    }
    assert(vstd::relations::sorted_by(a, leq));
    assert(vstd::relations::sorted_by(b, leq));
    vstd::seq_lib::lemma_sorted_unique(a, b, leq);
}

/// How often an element occurs among copies of one element.
proof fn lemma_repeat_occurrences(x: Scalar, n: nat, e: Scalar)
    ensures
        occurrences(repeat(x, n), e) == if x == e {
            n
        } else {
            0
        },
    decreases n,
{
    if n == 0 {
        lemma_occurrences_bound(repeat(x, 0), e);
    } else {
        assert(repeat(x, n) =~= repeat(x, (n - 1) as nat).push(x));
        lemma_occurrences_push(repeat(x, (n - 1) as nat), x, e);
        lemma_repeat_occurrences(x, (n - 1) as nat, e);
    }
}

/// Counting in a sequence made of two.
proof fn lemma_occurrences_concat(a: Seq<Scalar>, b: Seq<Scalar>, e: Scalar)
    ensures
        occurrences(a + b, e) == occurrences(a, e) + occurrences(b, e),
{
    broadcast use vstd::multiset::group_multiset_axioms;

    vstd::seq_lib::lemma_multiset_commutative(a, b);
}

/// The alternating halves of a sequence that ends in copies of one element:
/// the copies go to the two halves in turn, the first of them to the half
/// whose turn it is after what came before.
proof fn lemma_entries_of_block(u: Seq<Scalar>, e: Scalar, c: nat)
    ensures
        even_entries(u + repeat(e, c)) == even_entries(u) + repeat(
            e,
            if u.len() % 2 == 0 {
                (c + 1) / 2
            } else {
                c / 2
            },
        ),
        odd_entries(u + repeat(e, c)) == odd_entries(u) + repeat(
            e,
            if u.len() % 2 == 0 {
                c / 2
            } else {
                (c + 1) / 2
            },
        ),
{
    let whole = u + repeat(e, c);
    let more_evens: nat = if u.len() % 2 == 0 {
        (c + 1) / 2
    } else {
        c / 2
    };
    let more_odds: nat = if u.len() % 2 == 0 {
        c / 2
    } else {
        (c + 1) / 2
    };
    assert(even_entries(whole) =~= even_entries(u) + repeat(e, more_evens));
    assert(odd_entries(whole) =~= odd_entries(u) + repeat(e, more_odds));
}

/// Dealing out is splitting by position: the two halves dealt out after `i`
/// entries of the table are the entries at the even and at the odd positions
/// of what those entries contribute, and the next odd copy goes to the
/// second half exactly when an odd number of elements has been dealt out.
proof fn lemma_dealt_is_alternating(t: Seq<Scalar>, f: Seq<Scalar>, i: nat)
    requires
        i <= t.len(),
    ensures
        dealt(t, f, i).0 == even_entries(laid(t, f, i)),
        dealt(t, f, i).1 == odd_entries(laid(t, f, i)),
        dealt(t, f, i).2 == (laid(t, f, i).len() % 2 == 1),
    decreases i,
{
    if i == 0 {
        assert(even_entries(Seq::<Scalar>::empty()) =~= Seq::<Scalar>::empty());
        assert(odd_entries(Seq::<Scalar>::empty()) =~= Seq::<Scalar>::empty());
    } else {
        lemma_dealt_is_alternating(t, f, (i - 1) as nat);
        let (evens, odds, parity) = dealt(t, f, (i - 1) as nat);
        let before = laid(t, f, (i - 1) as nat);
        let e = t[i - 1];
        if !t.take(i - 1).contains(e) {
            let c = occurrences(t, e) + occurrences(f, e);
            lemma_entries_of_block(before, e, c);
            if c % 2 == 1 {
                assert(repeat(e, c / 2).push(e) =~= repeat(e, (c + 1) / 2));
                assert((evens + repeat(e, c / 2)).push(e) =~= evens + repeat(e, (c + 1) / 2));
                assert((odds + repeat(e, c / 2)).push(e) =~= odds + repeat(e, (c + 1) / 2));
            }
        }
    }
}

/// What the first `i` entries of the table contribute holds, of every
/// element among those entries, all copies that table and query hold, and
/// of the other elements none.
proof fn lemma_laid_counts(t: Seq<Scalar>, f: Seq<Scalar>, i: nat, e: Scalar)
    requires
        i <= t.len(),
    ensures
        occurrences(laid(t, f, i), e) == if t.take(i as int).contains(e) {
            occurrences(t, e) + occurrences(f, e)
        } else {
            0
        },
    decreases i,
{
    if i == 0 {
        lemma_occurrences_bound(Seq::<Scalar>::empty(), e);
        assert(!t.take(0).contains(e));
    } else {
        let x = t[i - 1];
        lemma_laid_counts(t, f, (i - 1) as nat, e);
        lemma_take_push(t, i - 1);
        if !t.take(i - 1).contains(x) {
            let c = occurrences(t, x) + occurrences(f, x);
            lemma_repeat_occurrences(x, c, e);
            lemma_occurrences_concat(laid(t, f, (i - 1) as nat), repeat(x, c), e);
        }
    }
}

/// On an ascending table, what the first `i` entries contribute is ascending
/// too, and holds elements of those entries only.
proof fn lemma_laid_sorted(t: Seq<Scalar>, f: Seq<Scalar>, i: nat)
    requires
        i <= t.len(),
        sorted(t),
    ensures
        sorted(laid(t, f, i)),
        forall|k: int|
            0 <= k < laid(t, f, i).len() ==> t.take(i as int).contains(#[trigger] laid(t, f, i)[k]),
    decreases i,
{
    if i > 0 {
        lemma_laid_sorted(t, f, (i - 1) as nat);
        lemma_take_push(t, i - 1);
        let before = laid(t, f, (i - 1) as nat);
        let now = laid(t, f, i);
        let x = t[i - 1];
        assert forall|k: int| 0 <= k < now.len() implies t.take(i as int).contains(
            #[trigger] now[k],
        ) by {
            if k < before.len() {
                assert(t.take(i - 1).contains(before[k]));
                assert(now[k] == before[k]);
            }
        }
        assert forall|a: int, b: int| 0 <= a <= b < now.len() implies now[a]@ <= now[b]@ by {
            if b < before.len() {
                assert(before[a]@ <= before[b]@);
            } else if a < before.len() {
                assert(t.take(i - 1).contains(before[a]));
                let front = t.take(i - 1);
                let j = choose|j: int| 0 <= j < front.len() && #[trigger] front[j] == before[a];
                assert(t[j]@ <= t[i - 1]@);
            }
        }
    }
}

/// On an ascending table that holds every element of the query, what the
/// whole table contributes is the combined multiset in ascending order.
proof fn lemma_laid_is_sorted_union(t: Seq<Scalar>, f: Seq<Scalar>)
    requires
        sorted(t),
        covers(t, f),
    ensures
        is_sorted_union(laid(t, f, t.len()), t, f),
{
    broadcast use vstd::multiset::group_multiset_axioms;
    broadcast use vstd::seq_lib::group_to_multiset_ensures;

    let s = laid(t, f, t.len());
    let whole = t.to_multiset().add(f.to_multiset());
    lemma_laid_sorted(t, f, t.len());
    assert(t.take(t.len() as int) =~= t);
    assert forall|e: Scalar| s.to_multiset().count(e) == whole.count(e) by {
        lemma_laid_counts(t, f, t.len(), e);
        if !t.contains(e) {
            lemma_occurrences_bound(t, e);
            lemma_occurrences_bound(f, e);
            if f.contains(e) {
                let j = choose|j: int| 0 <= j < f.len() && f[j] == e;
                assert(t.contains(f[j]));
            }
        }
    }
    assert(s.to_multiset() =~= whole);
}

/// Sequences that hold the same elements as often hold the same elements.
proof fn lemma_same_elements(a: Seq<Scalar>, b: Seq<Scalar>, e: Scalar)
    requires
        a.to_multiset() == b.to_multiset(),
    ensures
        a.contains(e) <==> b.contains(e),
{
    lemma_occurrences_bound(a, e);
    lemma_occurrences_bound(b, e);
}

/// Splitting by position loses nothing and adds nothing: the entries at the
/// even and at the odd positions of a sequence hold together what the
/// sequence holds, every element as often; and the first half is as long as
/// the second or longer by one.
pub proof fn lemma_alternating_halves_keep_elements(s: Seq<Scalar>)
    ensures
        even_entries(s).to_multiset().add(odd_entries(s).to_multiset()) == s.to_multiset(),
        even_entries(s).len() + odd_entries(s).len() == s.len(),
        even_entries(s).len() == odd_entries(s).len() || even_entries(s).len() == odd_entries(
            s,
        ).len() + 1,
    decreases s.len(),
{
    broadcast use vstd::multiset::group_multiset_axioms;
    broadcast use vstd::seq_lib::group_to_multiset_ensures;

    if s.len() == 0 {
        assert(even_entries(s) =~= Seq::<Scalar>::empty());
        assert(odd_entries(s) =~= Seq::<Scalar>::empty());
        assert(s =~= Seq::<Scalar>::empty());
        assert(even_entries(s).to_multiset().add(odd_entries(s).to_multiset())
            =~= s.to_multiset());
    } else {
        let front = s.drop_last();
        let x = s.last();
        lemma_alternating_halves_keep_elements(front);
        assert(s =~= front.push(x));
        if front.len() % 2 == 0 {
            assert(even_entries(s) =~= even_entries(front).push(x));
            assert(odd_entries(s) =~= odd_entries(front));
        } else {
            assert(even_entries(s) =~= even_entries(front));
            assert(odd_entries(s) =~= odd_entries(front).push(x));
        }
        assert(even_entries(s).to_multiset().add(odd_entries(s).to_multiset())
            =~= s.to_multiset());
    }
}

/// Merges two ordered sequences into one.
fn merge(a: &Vec<Scalar>, b: &Vec<Scalar>) -> (r: Vec<Scalar>)
    requires
        sorted(a@),
        sorted(b@),
    ensures
        sorted(r@),
        r@.to_multiset() == a@.to_multiset().add(b@.to_multiset()),
{
    let mut out: Vec<Scalar> = Vec::new();
    let mut i: usize = 0;
    let mut j: usize = 0;
    proof {
        assert(a@.take(0) =~= Seq::<Scalar>::empty());
        assert(b@.take(0) =~= Seq::<Scalar>::empty());
        vstd::seq_lib::lemma_multiset_commutative(a@.take(0), b@.take(0));
    }
    while i < a.len() || j < b.len()
        invariant
            sorted(a@),
            sorted(b@),
            i <= a@.len(),
            j <= b@.len(),
            sorted(out@),
            out@.to_multiset() == a@.take(i as int).to_multiset().add(
                b@.take(j as int).to_multiset(),
            ),
            forall|k: int| 0 <= k < out@.len() && i < a@.len() ==> out@[k]@ <= a@[i as int]@,
            forall|k: int| 0 <= k < out@.len() && j < b@.len() ==> out@[k]@ <= b@[j as int]@,
        decreases a@.len() - i + b@.len() - j,
    {
        let ghost before = out@;
        let take_left = if j >= b.len() {
            true
        } else if i >= a.len() {
            false
        } else {
            !b[j].lt(&a[i])
        };
        if take_left {
            let x = a[i];
            out.push(x);
            proof {
                broadcast use vstd::seq_lib::group_to_multiset_ensures;
                broadcast use vstd::multiset::group_multiset_axioms;

                assert(a@.take(i + 1) =~= a@.take(i as int).push(x));
                assert(out@.to_multiset() =~= a@.take(i + 1).to_multiset().add(
                    b@.take(j as int).to_multiset(),
                ));
                assert forall|p: int, q: int| 0 <= p <= q < out@.len() implies out@[p]@
                    <= out@[q]@ by {
                    if q < before.len() {
                        assert(before[p]@ <= before[q]@);
                    }
                }
            }
            i += 1;
        } else {
            let x = b[j];
            out.push(x);
            proof {
                broadcast use vstd::seq_lib::group_to_multiset_ensures;
                broadcast use vstd::multiset::group_multiset_axioms;

                assert(b@.take(j + 1) =~= b@.take(j as int).push(x));
                assert(out@.to_multiset() =~= a@.take(i as int).to_multiset().add(
                    b@.take(j + 1).to_multiset(),
                ));
                assert forall|p: int, q: int| 0 <= p <= q < out@.len() implies out@[p]@
                    <= out@[q]@ by {
                    if q < before.len() {
                        assert(before[p]@ <= before[q]@);
                    }
                }
            }
            j += 1;
        }
    }
    proof {
        assert(a@.take(a@.len() as int) =~= a@);
        assert(b@.take(b@.len() as int) =~= b@);
    }
    out
}

/// Orders a sequence by the representatives of its elements, the least
/// first.
fn merge_sort(v: Vec<Scalar>) -> (r: Vec<Scalar>)
    ensures
        sorted(r@),
        r@.to_multiset() == v@.to_multiset(),
    decreases v@.len(),
{
    if v.len() <= 1 {
        return v;
    }
    let mid = v.len() / 2;
    let mut left = v;
    let right = left.split_off(mid);
    proof {
        assert(v@ =~= left@ + right@);
        vstd::seq_lib::lemma_multiset_commutative(left@, right@);
    }
    let left = merge_sort(left);
    let right = merge_sort(right);
    merge(&left, &right)
}

impl MultiSet {
    /// The elements in their order.
    pub open spec fn view(&self) -> Seq<Scalar> {
        self.0@
    }

    /// A multiset without elements.
    pub fn new() -> (r: MultiSet)
        ensures
            r@ == Seq::<Scalar>::empty(),
    {
        MultiSet(Vec::new())
    }

    /// A multiset without elements, with room for `len` of them.
    pub fn with_capacity(len: usize) -> (r: MultiSet)
        ensures
            r@ == Seq::<Scalar>::empty(),
    {
        MultiSet(Vec::with_capacity(len))
    }

    /// The number of elements, counted with multiplicity.
    pub fn len(&self) -> (r: usize)
        ensures
            r == self@.len(),
    {
        self.0.len()
    }

    /// Whether the multiset holds no element.
    pub fn is_empty(&self) -> (r: bool)
        ensures
            r == (self@.len() == 0),
    {
        self.0.len() == 0
    }

    /// Puts `value` at the end.
    pub fn push(&mut self, value: Scalar)
        ensures
            final(self)@ == old(self)@.push(value),
    {
        self.0.push(value)
    }

    /// Whether `entry` occurs in the multiset.
    pub fn contains(&self, entry: &Scalar) -> (r: bool)
        ensures
            r == self@.contains(*entry),
    {
        let mut i: usize = 0;
        while i < self.0.len()
            invariant
                i <= self@.len(),
                forall|k: int| 0 <= k < i ==> self@[k] != *entry,
            decreases self@.len() - i,
        {
            if self.0[i] == *entry {
                return true;
            }
            i += 1;
        }
        false
    }

    /// Splits the combined multiset of the table `self` and the query `f`
    /// into two halves.
    ///
    /// Every element of `f` has to occur in `self`. The elements of table
    /// and query are put together in ascending order; the first half takes
    /// those at the even positions of that order and the second those at
    /// the odd positions, so that equal elements go to the two halves in
    /// turn.
    pub fn sorted_halve(&self, f: &MultiSet) -> (r: Result<(MultiSet, MultiSet), Error>)
        requires
            self@.len() + f@.len() <= usize::MAX,
        ensures
            r is Ok <==> covers(self@, f@),
            r matches Ok((h1, h2)) ==> exists|s: Seq<Scalar>|
                is_sorted_union(s, self@, f@) && h1@ == even_entries(s) && h2@ == odd_entries(s),
            r matches Err(e) ==> e == Error::ElementNotIndexed,
    {
        let mut copy: Vec<Scalar> = Vec::new();
        let mut i: usize = 0;
        while i < self.0.len()
            invariant
                i <= self@.len(),
                copy@ == self@.take(i as int),
            decreases self@.len() - i,
        {
            copy.push(self.0[i]);
            proof {
                lemma_take_push(self@, i as int);
            }
            i += 1;
        }
        let table = MultiSet(merge_sort(copy));
        proof {
            assert(self@.take(self@.len() as int) =~= self@);
            assert forall|e: Scalar| table@.contains(e) <==> self@.contains(e) by {
                lemma_same_elements(table@, self@, e);
            }
            assert(covers(table@, f@) <==> covers(self@, f@));
            assert(table@.len() == self@.len()) by {
                broadcast use vstd::seq_lib::group_to_multiset_ensures;

                assert(table@.to_multiset().len() == table@.len());
                assert(self@.to_multiset().len() == self@.len());
            }
        }
        let r = table.deal_out(f);
        proof {
            if covers(self@, f@) {
                lemma_dealt_is_alternating(table@, f@, table@.len());
                lemma_laid_is_sorted_union(table@, f@);
                assert(is_sorted_union(laid(table@, f@, table@.len()), self@, f@));
            }
        }
        r
    }

    /// Deals the copies of every element of the table `self` out to two
    /// halves, in the order in which the table first names the elements: of
    /// the copies that an element has in table and query together, each half
    /// takes half, and an odd copy goes to the first half and to the second
    /// in turn.
    fn deal_out(&self, f: &MultiSet) -> (r: Result<(MultiSet, MultiSet), Error>)
        requires
            self@.len() + f@.len() <= usize::MAX,
        ensures
            r is Ok <==> covers(self@, f@),
            r matches Ok((h1, h2)) ==> h1@ == dealt(self@, f@, self@.len()).0 && h2@ == dealt(
                self@,
                f@,
                self@.len(),
            ).1,
            r matches Err(e) ==> e == Error::ElementNotIndexed,
    {
        let ghost t = self@;
        let ghost q = f@;
        let mut counters = Counts::new();
        let mut i: usize = 0;
        while i < self.0.len()
            invariant
                t == self@,
                i <= t.len(),
                forall|e: Scalar| counters@.dom().contains(e) <==> t.take(i as int).contains(e),
                forall|e: Scalar| #[trigger]
                    counters@.dom().contains(e) ==> counters@[e] == occurrences(
                        t.take(i as int),
                        e,
                    ),
            decreases t.len() - i,
        {
            let element = self.0[i];
            proof {
                lemma_take_push(t, i as int);
                lemma_occurrences_bound(t.take(i as int), element);
                assert(counters@.dom().contains(element) ==> counters@[element] == occurrences(
                    t.take(i as int),
                    element,
                ));
            }
            let val = match counters.get(&element) {
                Some(v) => v + 1,
                None => 1,
            };
            counters.insert(element, val);
            proof {
                assert forall|e: Scalar| #[trigger]
                    counters@.dom().contains(e) implies counters@[e] == occurrences(
                    t.take(i + 1),
                    e,
                ) by {
                    lemma_occurrences_push(t.take(i as int), element, e);
                }
            }
            i += 1;
        }
        proof {
            assert(t.take(t.len() as int) =~= t);
            assert forall|e: Scalar| occurrences(q.take(0), e) == 0 by {
                lemma_occurrences_bound(q.take(0), e);
            }
        }

        let mut j: usize = 0;
        while j < f.0.len()
            invariant
                t == self@,
                q == f@,
                j <= q.len(),
                t.len() + q.len() <= usize::MAX,
                covers(t, q.take(j as int)),
                forall|e: Scalar| counters@.dom().contains(e) <==> t.contains(e),
                forall|e: Scalar| #[trigger]
                    counters@.dom().contains(e) ==> counters@[e] == occurrences(t, e)
                        + occurrences(q.take(j as int), e),
            decreases q.len() - j,
        {
            let element = f.0[j];
            proof {
                lemma_take_push(q, j as int);
                lemma_occurrences_bound(t, element);
                lemma_occurrences_bound(q.take(j as int), element);
            }
            match counters.get(&element) {
                Some(v) => {
                    counters.insert(element, v + 1);
                    proof {
                        assert forall|e: Scalar| #[trigger]
                            counters@.dom().contains(e) implies counters@[e] == occurrences(t, e)
                            + occurrences(q.take(j + 1), e) by {
                            lemma_occurrences_push(q.take(j as int), element, e);
                        }
                    }
                },
                None => {
                    assert(!covers(t, q)) by {
                        assert(q[j as int] == element);
                    }
                    return Err(Error::ElementNotIndexed);
                },
            }
            proof {
                let prefix = q.take(j + 1);
                assert forall|k: int| 0 <= k < prefix.len() implies t.contains(
                    #[trigger] prefix[k],
                ) by {
                    if k < j {
                        assert(prefix[k] == q.take(j as int)[k]);
                    }
                }
            }
            j += 1;
        }
        assert(q.take(q.len() as int) =~= q);

        let mut evens: Vec<Scalar> = Vec::new();
        let mut odds: Vec<Scalar> = Vec::new();
        let mut parity = false;
        let mut i: usize = 0;
        while i < self.0.len()
            invariant
                t == self@,
                q == f@,
                i <= t.len(),
                forall|e: Scalar| counters@.dom().contains(e) <==> t.contains(e),
                forall|e: Scalar| #[trigger]
                    counters@.dom().contains(e) ==> counters@[e] == if t.take(i as int).contains(
                        e,
                    ) {
                        0
                    } else {
                        occurrences(t, e) + occurrences(q, e)
                    },
                (evens@, odds@, parity) == dealt(t, q, i as nat),
            decreases t.len() - i,
        {
            let element = self.0[i];
            proof {
                lemma_take_push(t, i as int);
                assert(t.contains(element));
            }
            let count = match counters.get(&element) {
                Some(v) => v,
                None => 0,
            };
            let half_count = count / 2;
            let ghost evens_before = evens@;
            let ghost odds_before = odds@;
            let mut k: usize = 0;
            while k < half_count
                invariant
                    k <= half_count,
                    evens@ == evens_before + repeat(element, k as nat),
                    odds@ == odds_before + repeat(element, k as nat),
                decreases half_count - k,
            {
                evens.push(element);
                odds.push(element);
                proof {
                    assert(repeat(element, (k + 1) as nat) =~= repeat(element, k as nat).push(
                        element,
                    ));
                    assert(evens@ =~= evens_before + repeat(element, (k + 1) as nat));
                    assert(odds@ =~= odds_before + repeat(element, (k + 1) as nat));
                }
                k += 1;
            }
            if count % 2 == 1 {
                if parity {
                    odds.push(element);
                    parity = false;
                } else {
                    evens.push(element);
                    parity = true;
                }
            }
            counters.insert(element, 0);
            proof {
                if t.take(i as int).contains(element) {
                    assert(evens@ =~= evens_before);
                    assert(odds@ =~= odds_before);
                }
            }
            i += 1;
        }
        Ok((MultiSet(evens), MultiSet(odds)))
    }

    /// A multiset of `len` zeros.
    pub fn with_len(len: usize) -> (r: MultiSet)
        ensures
            r@.len() == len,
            forall|i: int| 0 <= i < len ==> (#[trigger] r@[i])@ == 0,
    {
        let mut out: Vec<Scalar> = Vec::new();
        let mut i: usize = 0;
        while i < len
            invariant
                i <= len,
                out@.len() == i,
                forall|k: int| 0 <= k < i ==> (#[trigger] out@[k])@ == 0,
            decreases len - i,
        {
            out.push(Scalar::zero());
            i += 1;
        }
        MultiSet(out)
    }

    /// Puts the elements of `other` at the end, in their order.
    pub fn extend(&mut self, other: Vec<Scalar>)
        ensures
            final(self)@ == old(self)@ + other@,
    {
        let mut other = other;
        self.0.append(&mut other);
    }

    /// The last element, if there is one.
    pub fn last(&self) -> (r: Option<&Scalar>)
        ensures
            self@.len() == 0 ==> r is None,
            self@.len() > 0 ==> r == Some(&self@[self@.len() - 1]),
    {
        if self.0.len() == 0 {
            None
        } else {
            Some(&self.0[self.0.len() - 1])
        }
    }

    /// The first position at which `element` occurs, if it occurs at all.
    pub fn position(&self, element: &Scalar) -> (r: Option<usize>)
        ensures
            r is None <==> !self@.contains(*element),
            r matches Some(i) ==> i < self@.len() && self@[i as int] == *element && forall|k: int|
                0 <= k < i ==> self@[k] != *element,
    {
        let mut i: usize = 0;
        while i < self.0.len()
            invariant
                i <= self@.len(),
                forall|k: int| 0 <= k < i ==> self@[k] != *element,
            decreases self@.len() - i,
        {
            if self.0[i] == *element {
                return Some(i);
            }
            i += 1;
        }
        None
    }

    /// Whether every element of `other` occurs in `self`, however often.
    pub fn contains_all(&self, other: &MultiSet) -> (r: bool)
        ensures
            r == covers(self@, other@),
    {
        let mut j: usize = 0;
        while j < other.0.len()
            invariant
                j <= other@.len(),
                forall|k: int| 0 <= k < j ==> self@.contains(#[trigger] other@[k]),
            decreases other@.len() - j,
        {
            if !self.contains(&other.0[j]) {
                return false;
            }
            j += 1;
        }
        true
    }

    /// Splits the multiset in the middle into two halves that share the
    /// middle element: the first half ends with the element that the second
    /// begins with.
    pub fn halve(&self) -> (r: (MultiSet, MultiSet))
        requires
            self@.len() > 0,
        ensures
            r.0@ == self@.take((self@.len() / 2 + 1) as int),
            r.1@ == self@.skip((self@.len() / 2) as int),
            r.0@.last() == r.1@.first(),
            r.0@.len() + r.1@.len() == self@.len() + 1,
    {
        let length = self.0.len();
        let mid = length / 2;
        let mut first: Vec<Scalar> = Vec::new();
        let mut second: Vec<Scalar> = Vec::new();
        let mut i: usize = 0;
        while i <= mid
            invariant
                mid < length,
                length == self@.len(),
                i <= mid + 1,
                first@ == self@.take(i as int),
            decreases mid + 1 - i,
        {
            first.push(self.0[i]);
            proof {
                assert(self@.take(i + 1) =~= self@.take(i as int).push(self@[i as int]));
            }
            i += 1;
        }
        let mut k: usize = mid;
        while k < length
            invariant
                mid <= k <= length,
                length == self@.len(),
                second@ == self@.subrange(mid as int, k as int),
            decreases length - k,
        {
            second.push(self.0[k]);
            proof {
                assert(self@.subrange(mid as int, k + 1) =~= self@.subrange(
                    mid as int,
                    k as int,
                ).push(self@[k as int]));
            }
            k += 1;
        }
        proof {
            assert(self@.subrange(mid as int, length as int) =~= self@.skip(mid as int));
        }
        (MultiSet(first), MultiSet(second))
    }

    /// Deals the elements out in turn: the first half takes those at even
    /// positions, the second those at odd positions.
    pub fn halve_alternating(&self) -> (r: (MultiSet, MultiSet))
        ensures
            r.0@ == even_entries(self@),
            r.1@ == odd_entries(self@),
    {
        let mut evens: Vec<Scalar> = Vec::new();
        let mut odds: Vec<Scalar> = Vec::new();
        let mut i: usize = 0;
        while i < self.0.len()
            invariant
                i <= self@.len(),
                evens@ =~= Seq::new(((i + 1) / 2) as nat, |k: int| self@[2 * k]),
                odds@ =~= Seq::new((i / 2) as nat, |k: int| self@[2 * k + 1]),
            decreases self@.len() - i,
        {
            if i % 2 == 0 {
                evens.push(self.0[i]);
            } else {
                odds.push(self.0[i]);
            }
            i += 1;
        }
        (MultiSet(evens), MultiSet(odds))
    }

    /// Extends the multiset to `n` elements with copies of its first element.
    /// An empty multiset first takes a zero. The call is refused, and the
    /// multiset left as it was, when `n` is not a power of two or lies below
    /// the length that the multiset has by then.
    pub fn pad(&mut self, n: u32) -> (r: Result<(), Error>)
        ensures
            !is_power_of_two(n as nat) ==> r == Err::<(), Error>(Error::InvalidPadLength)
                && final(self)@ == old(self)@,
            is_power_of_two(n as nat) && n < pad_base(old(self)@).len() ==> r == Err::<(), Error>(
                Error::PadTooShort,
            ) && final(self)@ == old(self)@,
            is_power_of_two(n as nat) && n >= pad_base(old(self)@).len() ==> r is Ok
                && final(self)@ == padded(old(self)@, n as nat),
            r is Ok ==> final(self)@.len() == n && final(self)@.take(
                pad_base(old(self)@).len() as int,
            ) == pad_base(old(self)@) && forall|i: int|
                pad_base(old(self)@).len() <= i < n ==> #[trigger] final(self)@[i] == pad_base(
                    old(self)@,
                )[0],
    {
        if !check_power_of_two(n as u64) {
            return Err(Error::InvalidPadLength);
        }
        if self.0.len() > n as usize {
            return Err(Error::PadTooShort);
        }
        if self.0.len() == 0 {
            self.0.push(Scalar::zero());
            proof {
                assert(self.0@ =~= pad_base(old(self)@));
            }
        }
        let first = self.0[0];
        let ghost base = self.0@;
        while self.0.len() < n as usize
            invariant
                base == pad_base(old(self)@),
                base.len() > 0,
                first == base[0],
                base.len() <= self.0@.len() <= n,
                self.0@ == base + repeat(first, (self.0@.len() - base.len()) as nat),
            decreases n - self.0@.len(),
        {
            self.0.push(first);
            proof {
                assert(self.0@ =~= base + repeat(first, (self.0@.len() - base.len()) as nat));
            }
        }
        proof {
            assert(self.0@.take(base.len() as int) =~= base);
        }
        Ok(())
    }

    /// Reads the elements as the values that a polynomial takes on the
    /// domain and gives that polynomial in coefficient form.
    pub fn to_polynomial(&self, domain: &EvaluationDomain) -> (r: Polynomial)
        ensures
            exists|coeffs: Seq<Scalar>|
                coeffs.len() == domain.spec_size() && values(coeffs) == ifft_coefficients(
                    values(self@),
                    domain.spec_size(),
                ) && r@ == trimmed(coeffs),
    {
        let coeffs = domain.ifft(&self.0);
        Polynomial::from_coefficients_vec(coeffs)
    }

    /// The encodings of the elements, one after another: each element as the
    /// 32 little-endian bytes of its representative.
    pub fn to_var_bytes(&self) -> (r: Vec<u8>)
        ensures
            r@.len() == 32 * self@.len(),
            forall|i: int|
                0 <= i < self@.len() ==> le_value(#[trigger] r@.subrange(32 * i, 32 * i + 32))
                    == self@[i]@,
    {
        let mut out: Vec<u8> = Vec::new();
        let mut i: usize = 0;
        while i < self.0.len()
            invariant
                i <= self@.len(),
                out@.len() == 32 * i,
                forall|k: int|
                    0 <= k < i ==> le_value(#[trigger] out@.subrange(32 * k, 32 * k + 32))
                        == self@[k]@,
            decreases self@.len() - i,
        {
            let mut bytes = self.0[i].to_bytes();
            let ghost before = out@;
            let ghost chunk = bytes@;
            out.append(&mut bytes);
            proof {
                assert(out@.subrange(32 * i, 32 * i + 32) =~= chunk);
                assert forall|k: int| 0 <= k < i implies le_value(
                    #[trigger] out@.subrange(32 * k, 32 * k + 32),
                ) == self@[k]@ by {
                    assert(out@.subrange(32 * k, 32 * k + 32) =~= before.subrange(
                        32 * k,
                        32 * k + 32,
                    ));
                }
            }
            i += 1;
        }
        out
    }

    /// Reads a multiset from the encodings of its elements, one after
    /// another. The bytes are refused when their number is no multiple of 32
    /// or when a block of 32 spells out a number that is not below the
    /// modulus.
    pub fn from_slice(bytes: &[u8]) -> (r: Result<MultiSet, Error>)
        ensures
            r is Ok <==> bytes@.len() % 32 == 0 && forall|i: int|
                0 <= i < bytes@.len() / 32 ==> le_value(
                    #[trigger] bytes@.subrange(32 * i, 32 * i + 32),
                ) < modulus(),
            r matches Ok(m) ==> m@.len() == bytes@.len() / 32 && forall|i: int|
                0 <= i < m@.len() ==> (#[trigger] m@[i])@ == le_value(
                    bytes@.subrange(32 * i, 32 * i + 32),
                ),
            r matches Err(e) ==> e == Error::MalformedBytes,
    {
        if bytes.len() % 32 != 0 {
            return Err(Error::MalformedBytes);
        }
        let count = bytes.len() / 32;
        let mut out: Vec<Scalar> = Vec::new();
        let mut i: usize = 0;
        while i < count
            invariant
                i <= count,
                count == bytes@.len() / 32,
                bytes@.len() % 32 == 0,
                bytes@.len() <= usize::MAX,
                out@.len() == i,
                forall|k: int|
                    0 <= k < i ==> le_value(#[trigger] bytes@.subrange(32 * k, 32 * k + 32))
                        < modulus(),
                forall|k: int|
                    0 <= k < i ==> (#[trigger] out@[k])@ == le_value(
                        bytes@.subrange(32 * k, 32 * k + 32),
                    ),
            decreases count - i,
        {
            assert(32 * i + 32 <= bytes@.len()) by {
                assert(bytes@.len() == 32 * count);
            }
            let chunk = vstd::slice::slice_subrange(bytes, 32 * i, 32 * i + 32);
            match Scalar::from_bytes(chunk) {
                Some(s) => {
                    out.push(s);
                },
                None => {
                    return Err(Error::MalformedBytes);
                },
            }
            i += 1;
        }
        Ok(MultiSet(out))
    }

    /// Puts the elements of `other` among those of `self` and orders the
    /// whole by the representatives of the elements, the least first.
    pub fn sorted_concat(&mut self, other: MultiSet)
        ensures
            sorted(final(self)@),
            final(self)@.to_multiset() == old(self)@.to_multiset().add(other@.to_multiset()),
    {
        let ghost joined = self.0@ + other.0@;
        self.extend(other.0);
        proof {
            vstd::seq_lib::lemma_multiset_commutative(old(self)@, other@);
        }
        let mut all: Vec<Scalar> = Vec::new();
        std::mem::swap(&mut all, &mut self.0);
        self.0 = merge_sort(all);
    }

    /// Elementwise sum of two multisets, as long as the shorter of them.
    pub fn add(&self, other: &MultiSet) -> (r: MultiSet)
        ensures
            r@.len() == vstd::math::min(self@.len() as int, other@.len() as int),
            forall|i: int|
                0 <= i < r@.len() ==> (#[trigger] r@[i])@ == add_mod(self@[i]@, other@[i]@),
    {
        let mut out: Vec<Scalar> = Vec::new();
        let mut i: usize = 0;
        while i < self.0.len() && i < other.0.len()
            invariant
                i <= self@.len(),
                i <= other@.len(),
                out@.len() == i,
                forall|k: int|
                    0 <= k < i ==> (#[trigger] out@[k])@ == add_mod(self@[k]@, other@[k]@),
            decreases self@.len() - i,
        {
            out.push(self.0[i].add(&other.0[i]));
            i += 1;
        }
        MultiSet(out)
    }

    /// Elementwise product of two multisets, as long as the shorter of them.
    pub fn mul(&self, other: &MultiSet) -> (r: MultiSet)
        ensures
            r@.len() == vstd::math::min(self@.len() as int, other@.len() as int),
            forall|i: int|
                0 <= i < r@.len() ==> (#[trigger] r@[i])@ == mul_mod(self@[i]@, other@[i]@),
    {
        let mut out: Vec<Scalar> = Vec::new();
        let mut i: usize = 0;
        while i < self.0.len() && i < other.0.len()
            invariant
                i <= self@.len(),
                i <= other@.len(),
                out@.len() == i,
                forall|k: int|
                    0 <= k < i ==> (#[trigger] out@[k])@ == mul_mod(self@[k]@, other@[k]@),
            decreases self@.len() - i,
        {
            out.push(self.0[i].mul(&other.0[i]));
            i += 1;
        }
        MultiSet(out)
    }

    /// The multiset with every element multiplied by `elem`.
    pub fn scale(&self, elem: &Scalar) -> (r: MultiSet)
        ensures
            r@.len() == self@.len(),
            forall|i: int| 0 <= i < r@.len() ==> (#[trigger] r@[i])@ == mul_mod(self@[i]@, elem@),
    {
        let mut out: Vec<Scalar> = Vec::new();
        let mut i: usize = 0;
        while i < self.0.len()
            invariant
                i <= self@.len(),
                out@.len() == i,
                forall|k: int| 0 <= k < i ==> (#[trigger] out@[k])@ == mul_mod(self@[k]@, elem@),
            decreases self@.len() - i,
        {
            out.push(self.0[i].mul(elem));
            i += 1;
        }
        MultiSet(out)
    }

    /// Folds multisets of one length into a single multiset: position by
    /// position, the random linear combination of their entries with the
    /// powers of `alpha`, the first multiset taking the power zero.
    pub fn compress(multisets: &[MultiSet], alpha: Scalar) -> (r: MultiSet)
        requires
            multisets@.len() > 0,
            forall|k: int|
                0 <= k < multisets@.len() ==> (#[trigger] multisets@[k])@.len()
                    == multisets@[0]@.len(),
        ensures
            r@.len() == multisets@[0]@.len(),
            forall|i: int|
                0 <= i < r@.len() ==> (#[trigger] r@[i])@ == compressed_at(
                    multisets@,
                    alpha@,
                    i,
                    0,
                ),
    {
        let len = multisets[0].0.len();
        let mut acc = MultiSet::with_len(len);
        let mut k: usize = multisets.len();
        while k > 0
            invariant
                k <= multisets@.len(),
                len == multisets@[0]@.len(),
                forall|j: int|
                    0 <= j < multisets@.len() ==> (#[trigger] multisets@[j])@.len() == len,
                acc@.len() == len,
                forall|i: int|
                    0 <= i < len ==> (#[trigger] acc@[i])@ == compressed_at(
                        multisets@,
                        alpha@,
                        i,
                        k as nat,
                    ),
            decreases k,
        {
            k -= 1;
            let scaled = acc.scale(&alpha);
            acc = scaled.add(&multisets[k]);
        }
        acc
    }
}

} // verus!
