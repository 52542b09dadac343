//! A stable insertion sort: a specification-level mirror parameterized by an
//! order relation, an executable sort generic over a total order, and the
//! lemmas the callers need.
use vstd::prelude::*;

verus! {

/// The relation orders any two values one way or the other.
pub open spec fn leq_total<T>(leq: spec_fn(T, T) -> bool) -> bool {
    forall|a: T, b: T| #[trigger] leq(a, b) || #[trigger] leq(b, a)
}

/// The relation is transitive.
pub open spec fn leq_transitive<T>(leq: spec_fn(T, T) -> bool) -> bool {
    forall|a: T, b: T, c: T| #[trigger] leq(a, b) && #[trigger] leq(b, c) ==> leq(a, c)
}

/// Every pair of positions is ordered by `leq`.
pub open spec fn sorted_by_leq<T>(s: Seq<T>, leq: spec_fn(T, T) -> bool) -> bool {
    forall|i: int, j: int| 0 <= i < j < s.len() ==> #[trigger] leq(s[i], s[j])
}

/// `x` placed into `s` after every element that sorts no later than it:
/// the single step of a stable insertion sort.
pub open spec fn insert_sorted_by<T>(x: T, s: Seq<T>, leq: spec_fn(T, T) -> bool) -> Seq<T>
    decreases s.len(),
{
    if s.len() == 0 {
        seq![x]
    } else if leq(s.last(), x) {
        s.push(x)
    } else {
        insert_sorted_by(x, s.drop_last(), leq).push(s.last())
    }
}

/// The stable sort of `s` by `leq`: elements in order, ties kept in input
/// order.
pub open spec fn sort_seq_by<T>(s: Seq<T>, leq: spec_fn(T, T) -> bool) -> Seq<T>
    decreases s.len(),
{
    if s.len() == 0 {
        Seq::empty()
    } else {
        insert_sorted_by(s.last(), sort_seq_by(s.drop_last(), leq), leq)
    }
}

/// Inserting adds one position and the new element, keeping the others.
pub proof fn lemma_insert_sorted_elems<T>(x: T, s: Seq<T>, leq: spec_fn(T, T) -> bool)
    ensures
        insert_sorted_by(x, s, leq).len() == s.len() + 1,
        forall|i: int|
            0 <= i < insert_sorted_by(x, s, leq).len() ==> (#[trigger] insert_sorted_by(
                x,
                s,
                leq,
            )[i] == x || s.contains(insert_sorted_by(x, s, leq)[i])),
    decreases s.len(),
{
    if s.len() == 0 {
    } else if leq(s.last(), x) {
    } else {
        lemma_insert_sorted_elems(x, s.drop_last(), leq);
        assert forall|i: int|
            0 <= i < insert_sorted_by(x, s, leq).len() implies (#[trigger] insert_sorted_by(
            x,
            s,
            leq,
        )[i] == x || s.contains(insert_sorted_by(x, s, leq)[i])) by {
            let t = insert_sorted_by(x, s.drop_last(), leq);
            if i < t.len() {
                if t[i] != x {
                    let j = choose|j: int| 0 <= j < s.drop_last().len() && s.drop_last()[j] == t[i];
                    assert(s[j] == t[i]);
                }
            } else {
                assert(insert_sorted_by(x, s, leq)[i] == s.last());
                assert(s[s.len() - 1] == s.last());
            }
        }
    }
}

/// Inserting into a sorted sequence keeps it sorted.
pub proof fn lemma_insert_sorted_sorted<T>(x: T, s: Seq<T>, leq: spec_fn(T, T) -> bool)
    requires
        sorted_by_leq(s, leq),
        leq_total(leq),
        leq_transitive(leq),
    ensures
        sorted_by_leq(insert_sorted_by(x, s, leq), leq),
    decreases s.len(),
{
    if s.len() == 0 {
    } else if leq(s.last(), x) {
        let r = s.push(x);
        assert forall|i: int, j: int| 0 <= i < j < r.len() implies #[trigger] leq(r[i], r[j]) by {
            if j == r.len() - 1 {
                if i < s.len() - 1 {
                    assert(leq(s[i], s[s.len() - 1]));
                }
            }
        }
    } else {
        lemma_insert_sorted_sorted(x, s.drop_last(), leq);
        lemma_insert_sorted_elems(x, s.drop_last(), leq);
        let t = insert_sorted_by(x, s.drop_last(), leq);
        let r = t.push(s.last());
        assert forall|i: int, j: int| 0 <= i < j < r.len() implies #[trigger] leq(r[i], r[j]) by {
            if j == r.len() - 1 {
                if t[i] == x {
                    assert(leq(s.last(), x) || leq(x, s.last()));
                } else {
                    let jj = choose|jj: int|
                        0 <= jj < s.drop_last().len() && s.drop_last()[jj] == t[i];
                    assert(leq(s[jj], s[s.len() - 1]));
                }
            }
        }
    }
}

/// Inserting keeps the multiset of elements, adding `x` once.
pub proof fn lemma_insert_sorted_multiset<T>(x: T, s: Seq<T>, leq: spec_fn(T, T) -> bool)
    ensures
        insert_sorted_by(x, s, leq).to_multiset() =~= s.to_multiset().insert(x),
    decreases s.len(),
{
    broadcast use vstd::seq_lib::group_to_multiset_ensures;

    if s.len() == 0 {
        assert(seq![x] =~= Seq::empty().push(x));
    } else if leq(s.last(), x) {
    } else {
        lemma_insert_sorted_multiset(x, s.drop_last(), leq);
        assert(s =~= s.drop_last().push(s.last()));
    }
}

/// The sort is sorted and keeps the length.
pub proof fn lemma_sort_seq_sorted<T>(s: Seq<T>, leq: spec_fn(T, T) -> bool)
    requires
        leq_total(leq),
        leq_transitive(leq),
    ensures
        sorted_by_leq(sort_seq_by(s, leq), leq),
        sort_seq_by(s, leq).len() == s.len(),
    decreases s.len(),
{
    if s.len() != 0 {
        lemma_sort_seq_sorted(s.drop_last(), leq);
        lemma_insert_sorted_sorted(s.last(), sort_seq_by(s.drop_last(), leq), leq);
        lemma_insert_sorted_elems(s.last(), sort_seq_by(s.drop_last(), leq), leq);
    }
}

/// The sort keeps the multiset of elements.
pub proof fn lemma_sort_seq_multiset<T>(s: Seq<T>, leq: spec_fn(T, T) -> bool)
    ensures
        sort_seq_by(s, leq).to_multiset() =~= s.to_multiset(),
    decreases s.len(),
{
    broadcast use vstd::seq_lib::group_to_multiset_ensures;

    if s.len() != 0 {
        lemma_sort_seq_multiset(s.drop_last(), leq);
        lemma_insert_sorted_multiset(s.last(), sort_seq_by(s.drop_last(), leq), leq);
        assert(s =~= s.drop_last().push(s.last()));
    }
}

/// Sorting an already sorted sequence gives it back unchanged.
pub proof fn lemma_sort_seq_of_sorted<T>(s: Seq<T>, leq: spec_fn(T, T) -> bool)
    requires
        sorted_by_leq(s, leq),
    ensures
        sort_seq_by(s, leq) == s,
    decreases s.len(),
{
    if s.len() != 0 {
        assert(sorted_by_leq(s.drop_last(), leq)) by {
            assert(forall|i: int, j: int|
                0 <= i < j < s.drop_last().len() ==> #[trigger] leq(
                    s.drop_last()[i],
                    s.drop_last()[j],
                )) by {
                assert(forall|i: int, j: int|
                    0 <= i < j < s.drop_last().len() ==> s.drop_last()[i] == s[i]
                        && s.drop_last()[j] == s[j] && #[trigger] leq(s[i], s[j]));
            }
        }
        lemma_sort_seq_of_sorted(s.drop_last(), leq);
        if s.len() == 1 {
            assert(sort_seq_by(s, leq) =~= s);
        } else {
            assert(leq(s.drop_last().last(), s.last())) by {
                assert(leq(s[s.len() - 2], s[s.len() - 1]));
            }
            assert(sort_seq_by(s, leq) =~= s.drop_last().push(s.last()));
            assert(s.drop_last().push(s.last()) =~= s);
        }
    }
}

/// A total order on a type: a spec relation, the laws the sorting proofs
/// rest on, and an executable decision procedure.
pub trait SortKey: Sized {
    /// `self` sorts no later than `other`.
    spec fn le_spec(&self, other: &Self) -> bool;

    /// The order relates any two values one way or the other.
    proof fn lemma_total(a: &Self, b: &Self)
        ensures
            a.le_spec(b) || b.le_spec(a),
    ;

    /// The order is transitive.
    proof fn lemma_transitive(a: &Self, b: &Self, c: &Self)
        requires
            a.le_spec(b),
            b.le_spec(c),
        ensures
            a.le_spec(c),
    ;

    /// Decide the order.
    fn le(&self, other: &Self) -> (r: bool)
        ensures
            r == self.le_spec(other),
    ;
}

/// `x` placed into `s` after every element that sorts no later than it,
/// under the type's own order.
pub open spec fn insert_sorted<T: SortKey>(x: T, s: Seq<T>) -> Seq<T>
    decreases s.len(),
{
    if s.len() == 0 {
        seq![x]
    } else if s.last().le_spec(&x) {
        s.push(x)
    } else {
        insert_sorted(x, s.drop_last()).push(s.last())
    }
}

/// The stable sort of `s` under the type's own order.
pub open spec fn sort_seq<T: SortKey>(s: Seq<T>) -> Seq<T>
    decreases s.len(),
{
    if s.len() == 0 {
        Seq::empty()
    } else {
        insert_sorted(s.last(), sort_seq(s.drop_last()))
    }
}

/// A mapping that carries the type's order to `leqv` carries its insert to
/// the relation-level one.
pub proof fn lemma_insert_sorted_views<T: SortKey, V>(
    x: T,
    s: Seq<T>,
    f: spec_fn(T) -> V,
    leqv: spec_fn(V, V) -> bool,
)
    requires
        forall|a: T, b: T| a.le_spec(&b) == #[trigger] leqv(f(a), f(b)),
    ensures
        insert_sorted(x, s).map_values(f) == insert_sorted_by(f(x), s.map_values(f), leqv),
    decreases s.len(),
{
    let sv = s.map_values(f);
    if s.len() == 0 {
        assert(insert_sorted(x, s).map_values(f) =~= insert_sorted_by(f(x), sv, leqv));
    } else {
        assert(sv.last() == f(s.last()));
        if s.last().le_spec(&x) {
            assert(insert_sorted(x, s).map_values(f) =~= sv.push(f(x)));
        } else {
            lemma_insert_sorted_views(x, s.drop_last(), f, leqv);
            assert(s.drop_last().map_values(f) =~= sv.drop_last());
            assert(insert_sorted(x, s).map_values(f) =~= insert_sorted_by(
                f(x),
                sv.drop_last(),
                leqv,
            ).push(sv.last()));
        }
    }
}

/// A mapping that carries the type's order to `leqv` carries its sort to
/// the relation-level one.
pub proof fn lemma_sort_seq_views<T: SortKey, V>(
    s: Seq<T>,
    f: spec_fn(T) -> V,
    leqv: spec_fn(V, V) -> bool,
)
    requires
        forall|a: T, b: T| a.le_spec(&b) == #[trigger] leqv(f(a), f(b)),
    ensures
        sort_seq(s).map_values(f) == sort_seq_by(s.map_values(f), leqv),
    decreases s.len(),
{
    let sv = s.map_values(f);
    if s.len() == 0 {
        assert(sort_seq(s).map_values(f) =~= sort_seq_by(sv, leqv));
    } else {
        lemma_sort_seq_views(s.drop_last(), f, leqv);
        lemma_insert_sorted_views(s.last(), sort_seq(s.drop_last()), f, leqv);
        assert(s.drop_last().map_values(f) =~= sv.drop_last());
        assert(sv.last() == f(s.last()));
    }
}

/// Where the scan of the executable insert stops, the recursive
/// `insert_sorted` places the element.
proof fn lemma_insert_sorted_at<T: SortKey>(s: Seq<T>, x: T, j: int)
    requires
        0 <= j <= s.len(),
        forall|k: int| j <= k < s.len() ==> !(#[trigger] s[k].le_spec(&x)),
        j > 0 ==> s[j - 1].le_spec(&x),
    ensures
        insert_sorted(x, s) == s.subrange(0, j) + seq![x] + s.subrange(j, s.len() as int),
    decreases s.len(),
{
    if s.len() == 0 {
        assert(insert_sorted(x, s) =~= s.subrange(0, j) + seq![x] + s.subrange(
            j,
            s.len() as int,
        ));
    } else if j == s.len() {
        assert(s[j - 1] == s.last());
        assert(insert_sorted(x, s) =~= s.subrange(0, j) + seq![x] + s.subrange(
            j,
            s.len() as int,
        ));
    } else {
        assert(!s.last().le_spec(&x)) by {
            assert(s[s.len() - 1] == s.last());
        }
        lemma_insert_sorted_at(s.drop_last(), x, j);
        assert(insert_sorted(x, s) =~= s.subrange(0, j) + seq![x] + s.subrange(
            j,
            s.len() as int,
        )) by {
            assert(s.drop_last().subrange(0, j) =~= s.subrange(0, j));
            assert(s.drop_last().subrange(j, s.drop_last().len() as int) =~= s.subrange(
                j,
                s.len() - 1,
            ));
            assert(insert_sorted(x, s) == insert_sorted(x, s.drop_last()).push(s.last()));
        }
    }
}

/// Place `x` into the sorted vector `out`, after every element that sorts
/// no later than it.
pub fn insert_into_sorted<T: SortKey>(out: &mut Vec<T>, x: T)
    ensures
        final(out)@ == insert_sorted(x, old(out)@),
{
    let ghost orig = out@;
    let mut j: usize = out.len();
    loop
        invariant
            j <= out.len(),
            out@ == orig,
            forall|k: int| j <= k < out@.len() ==> !(#[trigger] out@[k].le_spec(&x)),
        ensures
            j <= out.len(),
            out@ == orig,
            forall|k: int| j <= k < out@.len() ==> !(#[trigger] out@[k].le_spec(&x)),
            j > 0 ==> out@[j - 1].le_spec(&x),
        decreases j,
    {
        if j == 0 {
            break;
        }
        if out[j - 1].le(&x) {
            break;
        }
        j -= 1;
    }
    proof {
        lemma_insert_sorted_at(orig, x, j as int);
    }
    out.insert(j, x);
    proof {
        assert(out@ =~= orig.subrange(0, j as int) + seq![x] + orig.subrange(
            j as int,
            orig.len() as int,
        ));
    }
}

/// Sort the vector stably by the type's order.
pub fn sort_vec<T: SortKey>(v: Vec<T>) -> (r: Vec<T>)
    ensures
        r@ == sort_seq(v@),
{
    let ghost orig = v@;
    let mut rest = v;
    let mut out: Vec<T> = Vec::new();
    while rest.len() > 0
        invariant
            rest@.len() <= orig.len(),
            rest@ == orig.subrange(orig.len() - rest@.len(), orig.len() as int),
            out@ == sort_seq(orig.subrange(0, orig.len() - rest@.len())),
        decreases rest@.len(),
    {
        let ghost done = orig.len() - rest@.len();
        let x = rest.remove(0);
        proof {
            assert(x == orig[done]);
            assert(rest@ =~= orig.subrange(orig.len() - rest@.len(), orig.len() as int));
        }
        insert_into_sorted(&mut out, x);
        proof {
            let p = orig.subrange(0, done);
            let p1 = orig.subrange(0, done + 1);
            assert(p1.drop_last() =~= p);
            assert(p1.last() == orig[done]);
            assert(sort_seq(p1) == insert_sorted(orig[done], sort_seq(p)));
        }
    }
    proof {
        assert(orig.subrange(0, orig.len() as int) =~= orig);
    }
    out
}

} // verus!

