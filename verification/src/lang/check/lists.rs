//! Folds over lists that the checker's specifications are built from.
use vstd::prelude::*;

verus! {

/// The lists that `f` gives for the items of `s`, one after another.
pub open spec fn concat_map<A, B>(s: Seq<A>, f: spec_fn(A) -> Seq<B>) -> Seq<B>
    decreases s.len(),
{
    if s.len() == 0 {
        Seq::<B>::empty()
    } else {
        concat_map(s.drop_last(), f) + f(s.last())
    }
}

/// `f` applied to every item of `s`, or the first failure.
pub open spec fn map_all<A, B, E>(s: Seq<A>, f: spec_fn(A) -> Result<B, E>) -> Result<Seq<B>, E>
    decreases s.len(),
{
    if s.len() == 0 {
        Ok(Seq::<B>::empty())
    } else {
        match map_all(s.drop_last(), f) {
            Err(e) => Err(e),
            Ok(bs) => match f(s.last()) {
                Err(e) => Err(e),
                Ok(b) => Ok(bs.push(b)),
            },
        }
    }
}

/// `f` checked on every item of `s`: the first failure, if any.
pub open spec fn all_ok<A, E>(s: Seq<A>, f: spec_fn(A) -> Result<(), E>) -> Result<(), E>
    decreases s.len(),
{
    if s.len() == 0 {
        Ok(())
    } else {
        match all_ok(s.drop_last(), f) {
            Err(e) => Err(e),
            Ok(()) => f(s.last()),
        }
    }
}

/// What `f` gives for every item that it does not refuse has the property
/// `p`: then so has every item of the list that `map_all` gives.
pub proof fn lemma_map_all_keeps<A, B, E>(s: Seq<A>, f: spec_fn(A) -> Result<B, E>, p: spec_fn(B) -> bool)
    requires
        forall|a: A| #[trigger] f(a) matches Ok(b) ==> p(b),
    ensures
        map_all(s, f) matches Ok(bs) ==> forall|i: int| 0 <= i < bs.len() ==> p(#[trigger] bs[i]),
    decreases s.len(),
{
    if s.len() > 0 {
        lemma_map_all_keeps(s.drop_last(), f, p);
        if let Ok(bs) = map_all(s, f) {
            let prev = map_all(s.drop_last(), f)->Ok_0;
            let b = f(s.last())->Ok_0;
            assert(bs == prev.push(b));
            assert forall|i: int| 0 <= i < bs.len() implies p(#[trigger] bs[i]) by {
                if i < prev.len() {
                    assert(bs[i] == prev[i]);
                }
            }
        }
    }
}

/// When every item of every list that `f` gives has the property `p`, so
/// has every item of the lists joined.
pub proof fn lemma_concat_map_keeps<A, B>(s: Seq<A>, f: spec_fn(A) -> Seq<B>, p: spec_fn(B) -> bool)
    requires
        forall|a: A, k: int| 0 <= k < f(a).len() ==> p(#[trigger] f(a)[k]),
    ensures
        forall|k: int| 0 <= k < concat_map(s, f).len() ==> p(#[trigger] concat_map(s, f)[k]),
    decreases s.len(),
{
    if s.len() > 0 {
        lemma_concat_map_keeps(s.drop_last(), f, p);
        let a = concat_map(s.drop_last(), f);
        let b = f(s.last());
        assert forall|k: int| 0 <= k < concat_map(s, f).len() implies p(#[trigger] concat_map(s, f)[k]) by {
            if k < a.len() {
                assert(concat_map(s, f)[k] == a[k]);
            } else {
                assert(concat_map(s, f)[k] == b[k - a.len()]);
            }
        }
    }
}

/// One more item of a prefix.
pub proof fn lemma_take_next<A>(s: Seq<A>, i: int)
    requires
        0 <= i < s.len(),
    ensures
        s.take(i + 1).drop_last() == s.take(i),
        s.take(i + 1).last() == s[i],
        s.take(s.len() as int) == s,
{
    assert(s.take(i + 1).drop_last() =~= s.take(i));
    assert(s.take(s.len() as int) =~= s);
}

/// The whole list as a prefix.
pub proof fn lemma_take_all<A>(s: Seq<A>)
    ensures
        s.take(s.len() as int) == s,
{
    assert(s.take(s.len() as int) =~= s);
}

/// `concat_map` over a list made of two parts.
pub proof fn lemma_concat_map_append<A, B>(a: Seq<A>, b: Seq<A>, f: spec_fn(A) -> Seq<B>)
    ensures
        concat_map(a + b, f) == concat_map(a, f) + concat_map(b, f),
    decreases b.len(),
{
    if b.len() == 0 {
        assert(a + b =~= a);
        assert(concat_map(a, f) + concat_map(b, f) =~= concat_map(a, f));
    } else {
        assert((a + b).drop_last() =~= a + b.drop_last());
        assert((a + b).last() == b.last());
        lemma_concat_map_append(a, b.drop_last(), f);
        assert(concat_map(a, f) + concat_map(b, f) =~= concat_map(a, f) + concat_map(
            b.drop_last(),
            f,
        ) + f(b.last()));
    }
}

/// A failure in a prefix is the failure of the whole list.
pub proof fn lemma_map_all_prefix_err<A, B, E>(s: Seq<A>, i: int, f: spec_fn(A) -> Result<B, E>)
    requires
        0 <= i <= s.len(),
        map_all(s.take(i), f) is Err,
    ensures
        map_all(s, f) == map_all(s.take(i), f),
    decreases s.len() - i,
{
    if i < s.len() {
        lemma_take_next(s, i);
        assert(map_all(s.take(i + 1), f) == map_all(s.take(i), f));
        lemma_map_all_prefix_err(s, i + 1, f);
    } else {
        lemma_take_all(s);
    }
}

/// A failure in a prefix is the failure of the whole list.
pub proof fn lemma_all_ok_prefix_err<A, E>(s: Seq<A>, i: int, f: spec_fn(A) -> Result<(), E>)
    requires
        0 <= i <= s.len(),
        all_ok(s.take(i), f) is Err,
    ensures
        all_ok(s, f) == all_ok(s.take(i), f),
    decreases s.len() - i,
{
    if i < s.len() {
        lemma_take_next(s, i);
        assert(all_ok(s.take(i + 1), f) == all_ok(s.take(i), f));
        lemma_all_ok_prefix_err(s, i + 1, f);
    } else {
        lemma_take_all(s);
    }
}

/// One more item of a list mapped in turn.
pub proof fn lemma_map_step<A, B, E>(s: Seq<A>, f: spec_fn(A) -> Result<B, E>, i: int, acc: Seq<B>)
    requires
        0 <= i < s.len(),
        map_all(s.take(i), f) == Ok::<Seq<B>, E>(acc),
    ensures
        map_all(s.take(i + 1), f) == (match f(s[i]) {
            Err(e) => Err(e),
            Ok(b) => Ok(acc.push(b)),
        }),
        f(s[i]) is Err ==> map_all(s, f) == map_all(s.take(i + 1), f),
{
    lemma_take_next(s, i);
    if f(s[i]) is Err {
        lemma_map_all_prefix_err(s, i + 1, f);
    }
}

/// No item of a list mapped yet.
pub proof fn lemma_map_start<A, B, E>(s: Seq<A>, f: spec_fn(A) -> Result<B, E>)
    ensures
        map_all(s.take(0), f) == Ok::<Seq<B>, E>(Seq::empty()),
{
    assert(s.take(0) =~= Seq::<A>::empty());
}

/// One more item of a list checked in turn.
pub proof fn lemma_all_ok_step<A, E>(s: Seq<A>, f: spec_fn(A) -> Result<(), E>, i: int)
    requires
        0 <= i < s.len(),
        all_ok(s.take(i), f) == Ok::<(), E>(()),
    ensures
        all_ok(s.take(i + 1), f) == f(s[i]),
        f(s[i]) is Err ==> all_ok(s, f) == f(s[i]),
{
    lemma_take_next(s, i);
    if f(s[i]) is Err {
        lemma_all_ok_prefix_err(s, i + 1, f);
    }
}

/// No item of a list checked yet.
pub proof fn lemma_all_ok_start<A, E>(s: Seq<A>, f: spec_fn(A) -> Result<(), E>)
    ensures
        all_ok(s.take(0), f) == Ok::<(), E>(()),
{
    assert(s.take(0) =~= Seq::<A>::empty());
}

/// A map that succeeds keeps the length, and each item is the image of the
/// item in its place.
pub proof fn lemma_map_all_ok<A, B, E>(s: Seq<A>, f: spec_fn(A) -> Result<B, E>)
    ensures
        map_all(s, f) matches Ok(bs) ==> bs.len() == s.len() && forall|i: int|
            0 <= i < s.len() ==> #[trigger] f(s[i]) == Ok::<B, E>(bs[i]),
    decreases s.len(),
{
    if s.len() > 0 {
        lemma_map_all_ok(s.drop_last(), f);
        if let Ok(bs) = map_all(s, f) {
            let prev = map_all(s.drop_last(), f)->Ok_0;
            assert forall|i: int| 0 <= i < s.len() implies #[trigger] f(s[i]) == Ok::<B, E>(bs[i]) by {
                if i < s.len() - 1 {
                    assert(s.drop_last()[i] == s[i]);
                    assert(bs[i] == prev[i]);
                }
            }
        }
    }
}

} // verus!
