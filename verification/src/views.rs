//! Views of collections, item by item.

use vstd::prelude::*;

verus! {

/// The views of the items of `s`, in order.
pub open spec fn views<T: View>(s: Seq<T>) -> Seq<T::V> {
    Seq::new(s.len(), |i: int| s[i]@)
}

/// The view of what `o` holds.
pub open spec fn option_view<T: View>(o: Option<T>) -> Option<T::V> {
    match o {
        Some(x) => Some(x@),
        None => None,
    }
}

/// The views of both outcomes of `r`.
pub open spec fn result_view<T: View, E: View>(r: Result<T, E>) -> Result<T::V, E::V> {
    match r {
        Ok(x) => Ok(x@),
        Err(e) => Err(e@),
    }
}

/// The views of a sequence with one item more.
pub broadcast proof fn lemma_views_push<T: View>(s: Seq<T>, x: T)
    ensures
        #[trigger] views(s.push(x)) == views(s).push(x@),
{
    assert(views(s.push(x)) =~= views(s).push(x@));
}

/// One item more of a prefix.
pub broadcast proof fn lemma_take_push<T>(s: Seq<T>, i: int)
    requires
        0 <= i < s.len(),
    ensures
        #[trigger] s.take(i + 1) == s.take(i).push(s[i]),
{
    assert(s.take(i + 1) =~= s.take(i).push(s[i]));
}

/// What `f` makes of one item more of a prefix.
pub proof fn lemma_filter_map_step<A, B>(s: Seq<A>, i: int, f: spec_fn(A) -> Option<B>)
    requires
        0 <= i < s.len(),
    ensures
        s.take(i + 1).filter_map(f) == match f(s[i]) {
            Some(x) => s.take(i).filter_map(f).push(x),
            None => s.take(i).filter_map(f),
        },
{
    assert(s.take(i + 1).drop_last() =~= s.take(i));
    if let Some(x) = f(s[i]) {
        assert(s.take(i).filter_map(f) + seq![x] =~= s.take(i).filter_map(f).push(x));
    }
}

/// What a filter keeps of one item more of a prefix.
pub proof fn lemma_filter_step<A>(s: Seq<A>, i: int, f: spec_fn(A) -> bool)
    requires
        0 <= i < s.len(),
    ensures
        s.take(i + 1).filter(f) == if f(s[i]) {
            s.take(i).filter(f).push(s[i])
        } else {
            s.take(i).filter(f)
        },
{
    reveal(Seq::filter);
    assert(s.take(i + 1).drop_last() =~= s.take(i));
}

/// A filter takes its items from the sequence, in order.
pub proof fn lemma_filter_order<A>(s: Seq<A>, f: spec_fn(A) -> bool, i: int, j: int) -> (r: (int, int))
    requires
        0 <= i <= j < s.filter(f).len(),
    ensures
        0 <= r.0 <= r.1 < s.len(),
        i < j ==> r.0 < r.1,
        s[r.0] == s.filter(f)[i],
        s[r.1] == s.filter(f)[j],
        f(s[r.0]),
        f(s[r.1]),
    decreases s.len(),
{
    reveal(Seq::filter);
    let n = s.len() - 1;
    let front = s.drop_last();
    let kept = front.filter(f);
    if j < kept.len() {
        lemma_filter_order(front, f, i, j)
    } else if i < kept.len() {
        let r = lemma_filter_order(front, f, i, i);
        (r.0, n)
    } else {
        (n, n)
    }
}

/// What a filter keeps first is the first item that it keeps.
pub proof fn lemma_first_kept<A>(s: Seq<A>, f: spec_fn(A) -> bool, k: int)
    requires
        0 <= k <= s.len(),
        k < s.len() ==> f(s[k]),
        forall|j: int| 0 <= j < k ==> !f(#[trigger] s[j]),
    ensures
        k < s.len() <==> s.filter(f).len() > 0,
        k < s.len() ==> s.filter(f)[0] == s[k],
{
    if s.filter(f).len() > 0 {
        let i = lemma_filter_order(s, f, 0, 0).0;
        assert(f(s[i]));
    }
    if k < s.len() {
        lemma_filter_head(s, f, k);
    }
}

proof fn lemma_filter_head<A>(s: Seq<A>, f: spec_fn(A) -> bool, k: int)
    requires
        0 <= k < s.len(),
        f(s[k]),
        forall|j: int| 0 <= j < k ==> !f(#[trigger] s[j]),
    ensures
        s.filter(f).len() > 0,
        s.filter(f)[0] == s[k],
    decreases s.len(),
{
    reveal(Seq::filter);
    let front = s.drop_last();
    if k < front.len() {
        lemma_filter_head(front, f, k);
    } else {
        assert(front.filter(f).len() == 0) by {
            if front.filter(f).len() > 0 {
                let i = lemma_filter_order(front, f, 0, 0).0;
                assert(f(s[i]));
            }
        }
    }
}

/// The views of items are as many, and each is that of the item in its place; of an option and of a
/// result they are those of what it holds.
pub proof fn law_views_item_by_item<T: View, E: View>(s: Seq<T>, i: int, x: T, e: E)
    ensures
        views(s).len() == s.len(),
        0 <= i < s.len() ==> views(s)[i] == s[i]@,
        option_view(Some(x)) == Some(x@),
        option_view(None::<T>) is None,
        result_view(Ok::<T, E>(x)) == Ok::<T::V, E::V>(x@),
        result_view(Err::<T, E>(e)) == Err::<T::V, E::V>(e@),
{
}

} // verus!
