use vstd::prelude::*;

verus! {

/// The sum of `f` over a sequence.
pub open spec fn seq_sum<T>(s: Seq<T>, f: spec_fn(T) -> int) -> int
    decreases s.len(),
{
    if s.len() == 0 {
        0
    } else {
        seq_sum(s.drop_last(), f) + f(s.last())
    }
}

pub proof fn lemma_sum_concat<T>(a: Seq<T>, b: Seq<T>, f: spec_fn(T) -> int)
    ensures
        seq_sum(a + b, f) == seq_sum(a, f) + seq_sum(b, f),
    decreases b.len(),
{
    if b.len() == 0 {
        assert(a + b =~= a);
    } else {
        lemma_sum_concat(a, b.drop_last(), f);
        assert((a + b).drop_last() =~= a + b.drop_last());
    }
}

pub proof fn lemma_sum_single<T>(x: T, f: spec_fn(T) -> int)
    ensures
        seq_sum(seq![x], f) == f(x),
{
    assert(seq![x].drop_last() =~= Seq::<T>::empty());
    assert(seq_sum(Seq::<T>::empty(), f) == 0);
    assert(seq![x].last() == x);
}

pub proof fn lemma_sum_split<T>(s: Seq<T>, i: int, f: spec_fn(T) -> int)
    requires
        0 <= i < s.len(),
    ensures
        seq_sum(s, f) == seq_sum(s.take(i), f) + f(s[i]) + seq_sum(s.skip(i + 1), f),
{
    assert(s =~= s.take(i) + seq![s[i]] + s.skip(i + 1));
    lemma_sum_concat(s.take(i) + seq![s[i]], s.skip(i + 1), f);
    lemma_sum_concat(s.take(i), seq![s[i]], f);
    lemma_sum_single(s[i], f);
}

pub proof fn lemma_sum_update<T>(s: Seq<T>, i: int, v: T, f: spec_fn(T) -> int)
    requires
        0 <= i < s.len(),
    ensures
        seq_sum(s.update(i, v), f) == seq_sum(s, f) - f(s[i]) + f(v),
{
    let t = s.update(i, v);
    lemma_sum_split(s, i, f);
    lemma_sum_split(t, i, f);
    assert(t.take(i) =~= s.take(i));
    assert(t.skip(i + 1) =~= s.skip(i + 1));
}

pub proof fn lemma_sum_insert<T>(s: Seq<T>, i: int, v: T, f: spec_fn(T) -> int)
    requires
        0 <= i <= s.len(),
    ensures
        seq_sum(s.insert(i, v), f) == seq_sum(s, f) + f(v),
{
    let t = s.insert(i, v);
    lemma_sum_split(t, i, f);
    assert(t.take(i) =~= s.take(i));
    assert(t.skip(i + 1) =~= s.skip(i));
    assert(s =~= s.take(i) + s.skip(i));
    lemma_sum_concat(s.take(i), s.skip(i), f);
}

pub proof fn lemma_sum_remove<T>(s: Seq<T>, i: int, f: spec_fn(T) -> int)
    requires
        0 <= i < s.len(),
    ensures
        seq_sum(s.remove(i), f) == seq_sum(s, f) - f(s[i]),
{
    let t = s.remove(i);
    lemma_sum_split(s, i, f);
    assert(t =~= s.take(i) + s.skip(i + 1));
    lemma_sum_concat(s.take(i), s.skip(i + 1), f);
}

pub proof fn lemma_sum_push<T>(s: Seq<T>, v: T, f: spec_fn(T) -> int)
    ensures
        seq_sum(s.push(v), f) == seq_sum(s, f) + f(v),
{
    assert(s.push(v).drop_last() =~= s);
}

pub proof fn lemma_sum_take_next<T>(s: Seq<T>, i: int, f: spec_fn(T) -> int)
    requires
        0 <= i < s.len(),
    ensures
        seq_sum(s.take(i + 1), f) == seq_sum(s.take(i), f) + f(s[i]),
{
    assert(s.take(i + 1).drop_last() =~= s.take(i));
}

pub proof fn lemma_sum_nonneg<T>(s: Seq<T>, f: spec_fn(T) -> int)
    requires
        forall|x: T| #[trigger] f(x) >= 0,
    ensures
        seq_sum(s, f) >= 0,
    decreases s.len(),
{
    if s.len() > 0 {
        lemma_sum_nonneg(s.drop_last(), f);
    }
}

pub proof fn lemma_sum_element_le<T>(s: Seq<T>, i: int, f: spec_fn(T) -> int)
    requires
        forall|x: T| #[trigger] f(x) >= 0,
        0 <= i < s.len(),
    ensures
        f(s[i]) <= seq_sum(s, f),
{
    lemma_sum_split(s, i, f);
    lemma_sum_nonneg(s.take(i), f);
    lemma_sum_nonneg(s.skip(i + 1), f);
}

pub proof fn lemma_sum_prefix_le<T>(s: Seq<T>, i: int, f: spec_fn(T) -> int)
    requires
        forall|x: T| #[trigger] f(x) >= 0,
        0 <= i <= s.len(),
    ensures
        seq_sum(s.take(i), f) <= seq_sum(s, f),
{
    assert(s =~= s.take(i) + s.skip(i));
    lemma_sum_concat(s.take(i), s.skip(i), f);
    lemma_sum_nonneg(s.skip(i), f);
}

/// A sum over elements that are each at least zero is at least each of its prefixes.
pub proof fn lemma_sum_prefix_le_on<T>(s: Seq<T>, i: int, f: spec_fn(T) -> int)
    requires
        forall|j: int| 0 <= j < s.len() ==> #[trigger] f(s[j]) >= 0,
        0 <= i <= s.len(),
    ensures
        seq_sum(s.take(i), f) <= seq_sum(s, f),
    decreases s.len() - i,
{
    if i < s.len() {
        lemma_sum_prefix_le_on(s, i + 1, f);
        assert(s.take(i + 1).drop_last() =~= s.take(i));
        assert(f(s[i]) >= 0);
    } else {
        assert(s.take(i) =~= s);
    }
}

/// A sum of terms that are each zero is zero.
pub proof fn lemma_sum_zero<T>(s: Seq<T>, f: spec_fn(T) -> int)
    requires
        forall|j: int| 0 <= j < s.len() ==> #[trigger] f(s[j]) == 0,
    ensures
        seq_sum(s, f) == 0,
    decreases s.len(),
{
    if s.len() > 0 {
        assert(f(s[s.len() - 1]) == 0);
        assert forall|j: int| 0 <= j < s.drop_last().len() implies #[trigger] f(s.drop_last()[j]) == 0 by {
            assert(s.drop_last()[j] == s[j]);
        }
        lemma_sum_zero(s.drop_last(), f);
    }
}

/// Summing a function that is nowhere larger gives a sum that is no larger.
pub proof fn lemma_sum_pointwise_le<T>(s: Seq<T>, f: spec_fn(T) -> int, g: spec_fn(T) -> int)
    requires
        forall|x: T| #[trigger] f(x) <= g(x),
    ensures
        seq_sum(s, f) <= seq_sum(s, g),
    decreases s.len(),
{
    if s.len() > 0 {
        lemma_sum_pointwise_le(s.drop_last(), f, g);
        assert(f(s.last()) <= g(s.last()));
    }
}

/// A sum of terms each at most `c` is at most `c` times the length.
pub proof fn lemma_sum_at_most<T>(s: Seq<T>, f: spec_fn(T) -> int, c: int)
    requires
        forall|x: T| #[trigger] f(x) <= c,
    ensures
        seq_sum(s, f) <= c * s.len(),
    decreases s.len(),
{
    if s.len() > 0 {
        lemma_sum_at_most(s.drop_last(), f, c);
        assert(f(s.last()) <= c);
        assert(c * s.drop_last().len() + c == c * s.len()) by (nonlinear_arith)
            requires
                s.drop_last().len() + 1 == s.len(),
        ;
    }
}

} // verus!
