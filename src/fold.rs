//! Facts about left folds over sequences that stop at the first failure.

use vstd::prelude::*;

verus! {

/// A fold whose value stays `None` once a prefix gives `None` is `None` on the
/// whole sequence once some prefix is.
pub proof fn lemma_none_persists<T, U>(f: spec_fn(Seq<T>) -> Option<U>, s: Seq<T>, k: int)
    requires
        0 <= k <= s.len(),
        f(s.take(k)) is None,
        forall|t: Seq<T>| t.len() > 0 && (#[trigger] f(t.drop_last())) is None ==> f(t) is None,
    ensures
        f(s) is None,
    decreases s.len() - k,
{
    if k < s.len() {
        let t = s.take(k + 1);
        assert(t.drop_last() == s.take(k));
        assert(f(t.drop_last()) is None);
        lemma_none_persists(f, s, k + 1);
    } else {
        assert(s.take(k) == s);
    }
}

/// A fold that keeps its first error gives, on the whole sequence, the error
/// that a prefix gives.
pub proof fn lemma_err_persists<T, U, E>(f: spec_fn(Seq<T>) -> Result<U, E>, s: Seq<T>, k: int)
    requires
        0 <= k <= s.len(),
        f(s.take(k)) is Err,
        forall|t: Seq<T>| t.len() > 0 && (#[trigger] f(t.drop_last())) is Err ==> f(t) == f(t.drop_last()),
    ensures
        f(s) == f(s.take(k)),
    decreases s.len() - k,
{
    if k < s.len() {
        let t = s.take(k + 1);
        assert(t.drop_last() == s.take(k));
        assert(f(t.drop_last()) is Err);
        lemma_err_persists(f, s, k + 1);
    } else {
        assert(s.take(k) == s);
    }
}

} // verus!
