//! Sorting blackout windows and merging those that lie close together.

use crate::time::{Moment, MomentModel, SECOND};
use crate::types::{BlackoutWindow, WindowEvent, WindowEventModel, WindowModel};
use crate::views::{lemma_take_push, lemma_views_push, views};
use vstd::prelude::*;

verus! {

/// `s` with `w` added behind the last window that does not start after it.
pub open spec fn inserted(s: Seq<WindowModel>, w: WindowModel) -> Seq<WindowModel>
    decreases s.len(),
{
    if s.len() == 0 || s.last().from().not_after(w.from()) {
        s.push(w)
    } else {
        inserted(s.drop_last(), w).push(s.last())
    }
}

/// The windows of `s` by their starts; windows with one start keep their order.
pub open spec fn by_start(s: Seq<WindowModel>) -> Seq<WindowModel>
    decreases s.len(),
{
    if s.len() == 0 {
        s
    } else {
        inserted(by_start(s.drop_last()), s.last())
    }
}

/// The window that lasts from the start of `a` to the later of both ends, with the events of both.
pub open spec fn joined_windows(a: WindowModel, b: WindowModel) -> WindowModel {
    WindowModel::lasting(
        a.from(),
        if b.until().not_after(a.until()) {
            a.until()
        } else {
            b.until()
        },
        a.events + b.events,
    )
}

/// The time from the end of `a` to the start of `b`.
pub open spec fn gap_between(a: WindowModel, b: WindowModel) -> int {
    b.from().since(a.until())
}

/// `merged` with `w` joined to its last window where the gap between both is at most `gap`, and
/// else added behind it.
pub open spec fn absorbed(merged: Seq<WindowModel>, w: WindowModel, gap: int) -> Seq<WindowModel> {
    if merged.len() > 0 && gap_between(merged.last(), w) <= gap {
        merged.drop_last().push(joined_windows(merged.last(), w))
    } else {
        merged.push(w)
    }
}

/// The windows of `s` with each joined to the one before it where the gap between both is at most
/// `gap`.
pub open spec fn merged_windows(s: Seq<WindowModel>, gap: int) -> Seq<WindowModel>
    decreases s.len(),
{
    if s.len() == 0 {
        Seq::empty()
    } else {
        absorbed(merged_windows(s.drop_last(), gap), s.last(), gap)
    }
}

/// Whether both ends of a window are far from the limits of the machine's integers.
pub open spec fn bounded(w: WindowModel) -> bool {
    &&& -0x100_0000_0000_0000_0000_0000_0000_0000 <= w.start
    &&& w.start <= 0x100_0000_0000_0000_0000_0000_0000_0000
    &&& -0x100_0000_0000_0000_0000_0000_0000_0000 <= w.end
    &&& w.end <= 0x100_0000_0000_0000_0000_0000_0000_0000
    &&& w.start_lag <= SECOND
    &&& w.end_lag <= SECOND
}

/// Inserting into the front part of a sequence whose other windows all start later.
proof fn lemma_inserted_at(s: Seq<WindowModel>, w: WindowModel, k: int)
    requires
        0 <= k <= s.len(),
        k == 0 || s[k - 1].from().not_after(w.from()),
        forall|i: int| k <= i < s.len() ==> !(#[trigger] s[i]).from().not_after(w.from()),
    ensures
        inserted(s, w) == s.insert(k, w),
    decreases s.len(),
{
    if k == s.len() {
        assert(s.insert(k, w) =~= s.push(w));
    } else {
        lemma_inserted_at(s.drop_last(), w, k);
        assert(s.drop_last().insert(k, w).push(s.last()) =~= s.insert(k, w));
    }
}

/// Sorts windows by their starts; windows with one start keep their order.
pub(crate) fn sort_windows(windows: Vec<BlackoutWindow>) -> (r: Vec<BlackoutWindow>)
    ensures
        views(r@) == by_start(views(windows@)),
{
    let ghost given = views(windows@);
    let mut out: Vec<BlackoutWindow> = Vec::new();
    assert(views(out@) =~= by_start(given.take(0)));
    for w in it: windows
        invariant
            it.seq() == windows@,
            given == views(windows@),
            views(out@) == by_start(given.take(it.index() as int)),
    {
        proof {
            lemma_take_push(given, it.index() as int);
            assert(given.take(it.index() + 1).drop_last() =~= given.take(it.index() as int));
            assert(w@ == given[it.index() as int]);
        }
        let mut k: usize = out.len();
        while k > 0 && !out[k - 1].start.not_after(w.start)
            invariant
                k <= out.len(),
                forall|i: int|
                    k <= i < out@.len() ==> !(#[trigger] views(out@)[i]).from().not_after(w@.from()),
            decreases k,
        {
            k = k - 1;
        }
        proof {
            lemma_inserted_at(views(out@), w@, k as int);
            assert(views(out@.insert(k as int, w)) =~= views(out@).insert(k as int, w@));
        }
        out.insert(k, w);
    }
    assert(given.take(given.len() as int) =~= given);
    out
}

/// Merges windows, given by their starts, that lie at most `gap` nanoseconds apart.
pub(crate) fn merge_windows(windows: Vec<BlackoutWindow>, gap: i128) -> (r: Vec<BlackoutWindow>)
    requires
        forall|i: int| 0 <= i < windows@.len() ==> bounded((#[trigger] windows@[i])@),
    ensures
        views(r@) == merged_windows(views(windows@), gap as int),
        forall|i: int| 0 <= i < r@.len() ==> bounded((#[trigger] r@[i])@),
{
    let ghost given = views(windows@);
    let mut out: Vec<BlackoutWindow> = Vec::new();
    assert(views(out@) =~= merged_windows(given.take(0), gap as int));
    for w in it: windows
        invariant
            it.seq() == windows@,
            given == views(windows@),
            forall|i: int| 0 <= i < windows@.len() ==> bounded((#[trigger] windows@[i])@),
            forall|i: int| 0 <= i < out@.len() ==> bounded((#[trigger] out@[i])@),
            views(out@) == merged_windows(given.take(it.index() as int), gap as int),
    {
        proof {
            lemma_take_push(given, it.index() as int);
            assert(given.take(it.index() + 1).drop_last() =~= given.take(it.index() as int));
            assert(w@ == given[it.index() as int]);
            assert(bounded(windows@[it.index() as int]@));
        }
        let ghost before = out@;
        match out.pop() {
            Some(last) => {
                assert(before =~= out@.push(last));
                proof {
                    lemma_views_push(out@, last);
                    assert(bounded(before[before.len() - 1]@));
                    assert(views(before).drop_last() =~= views(out@));
                }
                if w.start.since(last.end) <= gap {
                    let end: Moment = if w.end.not_after(last.end) {
                        last.end
                    } else {
                        w.end
                    };
                    let mut events: Vec<WindowEvent> = last.events;
                    let mut added: Vec<WindowEvent> = w.events;
                    proof {
                        assert(views(events@ + added@) =~= views(events@) + views(added@));
                    }
                    events.append(&mut added);
                    let whole: BlackoutWindow = BlackoutWindow { start: last.start, end, events };
                    assert(whole@ == joined_windows(last@, w@));
                    proof {
                        lemma_views_push(out@, whole);
                    }
                    out.push(whole);
                } else {
                    proof {
                        lemma_views_push(before, w);
                    }
                    out.push(last);
                    out.push(w);
                }
            },
            None => {
                proof {
                    lemma_views_push(out@, w);
                }
                out.push(w);
            },
        }
    }
    assert(given.take(given.len() as int) =~= given);
    out
}

/// Whether windows stand by their starts.
pub open spec fn sorted_by_start(s: Seq<WindowModel>) -> bool {
    forall|i: int, j: int|
        0 <= i <= j < s.len() ==> (#[trigger] s[i]).from().not_after((#[trigger] s[j]).from())
}

/// Whether no window starts or ends in a leap second.
pub open spec fn all_plain(s: Seq<WindowModel>) -> bool {
    forall|i: int| 0 <= i < s.len() ==> (#[trigger] s[i]).plain()
}

/// The windows that start at `start`.
pub open spec fn starts_at(start: MomentModel) -> spec_fn(WindowModel) -> bool {
    |w: WindowModel| w.from() == start
}

proof fn lemma_inserted(s: Seq<WindowModel>, w: WindowModel)
    ensures
        inserted(s, w).len() == s.len() + 1,
        inserted(s, w).to_multiset() == s.to_multiset().insert(w),
        forall|i: int|
            0 <= i < s.len() + 1 ==> #[trigger] inserted(s, w)[i] == w || s.contains(
                inserted(s, w)[i],
            ),
    decreases s.len(),
{
    broadcast use vstd::seq_lib::group_to_multiset_ensures;

    if s.len() == 0 || s.last().from().not_after(w.from()) {
        assert forall|i: int| 0 <= i < s.len() implies s.contains(#[trigger] s.push(w)[i]) by {
            assert(s[i] == s.push(w)[i]);
        }
    } else {
        let front = s.drop_last();
        lemma_inserted(front, w);
        assert(s =~= front.push(s.last()));
        assert forall|i: int| 0 <= i < s.len() + 1 implies #[trigger] inserted(s, w)[i] == w
            || s.contains(inserted(s, w)[i]) by {
            if i < s.len() {
                assert(inserted(s, w)[i] == inserted(front, w)[i]);
                if inserted(front, w)[i] != w {
                    let k = choose|k: int| 0 <= k < front.len() && front[k] == inserted(front, w)[i];
                    assert(s[k] == front[k]);
                }
            } else {
                assert(s[s.len() - 1] == inserted(s, w)[i]);
            }
        }
    }
}

proof fn lemma_inserted_sorted(s: Seq<WindowModel>, w: WindowModel)
    requires
        sorted_by_start(s),
    ensures
        sorted_by_start(inserted(s, w)),
    decreases s.len(),
{
    if s.len() == 0 || s.last().from().not_after(w.from()) {
        assert forall|i: int, j: int| 0 <= i <= j < s.len() + 1 implies (#[trigger] s.push(
            w,
        )[i]).from().not_after((#[trigger] s.push(w)[j]).from()) by {
            if i < s.len() {
                assert(s[i].from().not_after(s[s.len() - 1].from()));
            }
        }
    } else {
        let front = s.drop_last();
        lemma_inserted_sorted(front, w);
        lemma_inserted(front, w);
        let r = inserted(s, w);
        assert forall|i: int, j: int| 0 <= i <= j < r.len() implies (
        #[trigger] r[i]).from().not_after((#[trigger] r[j]).from()) by {
            let head = inserted(front, w);
            if j < head.len() {
                assert(head[i].from().not_after(head[j].from()));
            } else if i < head.len() {
                assert(head[i] == w || front.contains(head[i]));
                if head[i] != w {
                    let k = choose|k: int| 0 <= k < front.len() && front[k] == head[i];
                    assert(s[k].from().not_after(s[s.len() - 1].from()));
                }
            }
        }
    }
}

proof fn lemma_inserted_filter(s: Seq<WindowModel>, w: WindowModel, start: MomentModel)
    ensures
        inserted(s, w).filter(starts_at(start)) == s.push(w).filter(starts_at(start)),
    decreases s.len(),
{
    reveal(Seq::filter);
    let p = starts_at(start);
    assert(s.push(w).drop_last() =~= s);
    if s.len() > 0 && !s.last().from().not_after(w.from()) {
        let front = s.drop_last();
        lemma_inserted_filter(front, w, start);
        assert(front.push(w).drop_last() =~= front);
        assert(inserted(s, w).drop_last() =~= inserted(front, w));
        assert(inserted(s, w).last() == s.last());
        assert(front.push(w).last() == w);
        assert(s.push(w).last() == w);
        let kept = front.filter(p);
        assert(s.filter(p) == if p(s.last()) {
            kept.push(s.last())
        } else {
            kept
        });
        assert(front.push(w).filter(p) == if p(w) {
            kept.push(w)
        } else {
            kept
        });
        assert(s.push(w).filter(p) == if p(w) {
            s.filter(p).push(w)
        } else {
            s.filter(p)
        });
    }
}

/// Sorting puts windows by their starts.
pub proof fn law_sorting_sorts(s: Seq<WindowModel>)
    ensures
        sorted_by_start(by_start(s)),
    decreases s.len(),
{
    if s.len() > 0 {
        law_sorting_sorts(s.drop_last());
        lemma_inserted_sorted(by_start(s.drop_last()), s.last());
    }
}

/// Sorting neither loses nor adds a window.
pub proof fn law_sorting_keeps_windows(s: Seq<WindowModel>)
    ensures
        by_start(s).to_multiset() == s.to_multiset(),
    decreases s.len(),
{
    broadcast use vstd::seq_lib::group_to_multiset_ensures;

    if s.len() > 0 {
        law_sorting_keeps_windows(s.drop_last());
        lemma_inserted(by_start(s.drop_last()), s.last());
        assert(s =~= s.drop_last().push(s.last()));
    }
}

/// Windows with one start keep their order.
pub proof fn law_sorting_is_stable(s: Seq<WindowModel>, start: MomentModel)
    ensures
        by_start(s).filter(starts_at(start)) == s.filter(starts_at(start)),
    decreases s.len(),
{
    reveal(Seq::filter);
    if s.len() > 0 {
        let front = s.drop_last();
        law_sorting_is_stable(front, start);
        lemma_inserted_filter(by_start(front), s.last(), start);
        assert(by_start(front).push(s.last()).drop_last() =~= by_start(front));
    }
}

/// What sorting gives is a window of what was given, and the other way round.
pub(crate) proof fn lemma_by_start_contains(s: Seq<WindowModel>, w: WindowModel)
    ensures
        by_start(s).contains(w) <==> s.contains(w),
{
    broadcast use vstd::seq_lib::group_to_multiset_ensures;

    law_sorting_keeps_windows(s);
    assert(s.contains(w) <==> s.to_multiset().count(w) > 0);
    assert(by_start(s).contains(w) <==> by_start(s).to_multiset().count(w) > 0);
}

/// All events of the windows of `s`, in order.
pub open spec fn events_of(s: Seq<WindowModel>) -> Seq<WindowEventModel>
    decreases s.len(),
{
    if s.len() == 0 {
        Seq::empty()
    } else {
        events_of(s.drop_last()) + s.last().events
    }
}

/// Merging neither loses, nor repeats, nor reorders an event.
pub proof fn law_merging_keeps_events(s: Seq<WindowModel>, gap: int)
    ensures
        events_of(merged_windows(s, gap)) == events_of(s),
    decreases s.len(),
{
    if s.len() > 0 {
        let front = merged_windows(s.drop_last(), gap);
        law_merging_keeps_events(s.drop_last(), gap);
        let w = s.last();
        if front.len() > 0 && gap_between(front.last(), w) <= gap {
            let whole = joined_windows(front.last(), w);
            assert(front.drop_last().push(whole).drop_last() =~= front.drop_last());
            assert(events_of(front.drop_last()) + (front.last().events + w.events) =~= events_of(
                front.drop_last(),
            ) + front.last().events + w.events);
        } else {
            assert(front.push(w).drop_last() =~= front);
        }
    }
}

/// How often `e` is an event of the windows of `s`.
pub open spec fn times_held(s: Seq<WindowModel>, e: WindowEventModel) -> nat {
    events_of(s).to_multiset().count(e)
}

pub(crate) proof fn lemma_times_held(s: Seq<WindowModel>, w: WindowModel, e: WindowEventModel)
    ensures
        times_held(s.push(w), e) == times_held(s, e) + w.events.to_multiset().count(e),
{
    assert(s.push(w).drop_last() =~= s);
    vstd::seq_lib::lemma_multiset_commutative(events_of(s), w.events);
}

proof fn lemma_inserted_times_held(s: Seq<WindowModel>, w: WindowModel, e: WindowEventModel)
    ensures
        times_held(inserted(s, w), e) == times_held(s, e) + w.events.to_multiset().count(e),
    decreases s.len(),
{
    lemma_times_held(s, w, e);
    if s.len() > 0 && !s.last().from().not_after(w.from()) {
        let front = s.drop_last();
        lemma_inserted_times_held(front, w, e);
        lemma_times_held(inserted(front, w), s.last(), e);
        lemma_times_held(front, s.last(), e);
        assert(front.push(s.last()) =~= s);
    }
}

/// Sorted windows hold every event as often as those given.
pub proof fn law_sorting_keeps_events(s: Seq<WindowModel>, e: WindowEventModel)
    ensures
        times_held(by_start(s), e) == times_held(s, e),
    decreases s.len(),
{
    if s.len() > 0 {
        law_sorting_keeps_events(s.drop_last(), e);
        lemma_inserted_times_held(by_start(s.drop_last()), s.last(), e);
        lemma_times_held(s.drop_last(), s.last(), e);
        assert(s.drop_last().push(s.last()) =~= s);
    }
}

/// The windows that are not over before `time`.
pub open spec fn not_over(time: int) -> spec_fn(WindowModel) -> bool {
    |w: WindowModel| w.lasts_until(time)
}

/// The merged windows that have not ended hold every event at least as often as the windows given
/// that have not, and no event more often than the windows given.
pub proof fn law_lasting_windows_keep_events(
    s: Seq<WindowModel>,
    gap: int,
    time: int,
    e: WindowEventModel,
)
    ensures
        times_held(s.filter(not_over(time)), e) <= times_held(
            merged_windows(s, gap).filter(not_over(time)),
            e,
        ),
        times_held(merged_windows(s, gap).filter(not_over(time)), e) <= times_held(s, e),
    decreases s.len(),
{
    reveal(Seq::filter);
    let p = not_over(time);
    if s.len() > 0 {
        let prior = s.drop_last();
        let w = s.last();
        let front = merged_windows(prior, gap);
        law_lasting_windows_keep_events(prior, gap, time, e);
        assert(prior.push(w) =~= s);
        lemma_times_held(prior, w, e);
        lemma_times_held(prior.filter(p), w, e);
        if front.len() > 0 && gap_between(front.last(), w) <= gap {
            let head = front.drop_last();
            let last = front.last();
            let whole = joined_windows(last, w);
            assert(head.push(whole).drop_last() =~= head);
            lemma_times_held(head.filter(p), whole, e);
            lemma_times_held(head.filter(p), last, e);
            vstd::seq_lib::lemma_multiset_commutative(last.events, w.events);
            assert(p(last) ==> p(whole));
            assert(p(w) ==> p(whole));
            assert(front.filter(p) == if p(last) {
                head.filter(p).push(last)
            } else {
                head.filter(p)
            });
            law_merging_keeps_events(s, gap);
            lemma_filter_times_held(merged_windows(s, gap), p, e);
        } else {
            assert(front.push(w).drop_last() =~= front);
            lemma_times_held(front.filter(p), w, e);
        }
    }
}

pub(crate) proof fn lemma_filter_times_held(
    s: Seq<WindowModel>,
    p: spec_fn(WindowModel) -> bool,
    e: WindowEventModel,
)
    ensures
        times_held(s.filter(p), e) <= times_held(s, e),
    decreases s.len(),
{
    reveal(Seq::filter);
    if s.len() > 0 {
        let front = s.drop_last();
        lemma_filter_times_held(front, p, e);
        lemma_times_held(front, s.last(), e);
        lemma_times_held(front.filter(p), s.last(), e);
        assert(front.push(s.last()) =~= s);
    }
}

/// A window that holds an event counts among those that do.
pub(crate) proof fn lemma_held_in(s: Seq<WindowModel>, i: int, e: WindowEventModel)
    requires
        0 <= i < s.len(),
        s[i].events.contains(e),
    ensures
        times_held(s, e) >= 1,
        forall|j: int|
            0 <= j < s.len() && j != i && (#[trigger] s[j]).events.contains(e) ==> times_held(s, e)
                >= 2,
    decreases s.len(),
{
    broadcast use vstd::seq_lib::group_to_multiset_ensures;

    let front = s.drop_last();
    let last = s.len() - 1;
    lemma_times_held(front, s.last(), e);
    assert(front.push(s.last()) =~= s);
    assert(forall|j: int| 0 <= j < front.len() ==> #[trigger] front[j] == s[j]);
    if i < last {
        lemma_held_in(front, i, e);
    } else {
        assert forall|j: int| 0 <= j < s.len() && j != i && (#[trigger] s[j]).events.contains(
            e,
        ) implies times_held(s, e) >= 2 by {
            lemma_held_in(front, j, e);
        }
    }
}

/// Where an event is held, a window holds it.
pub(crate) proof fn lemma_held_somewhere(s: Seq<WindowModel>, e: WindowEventModel) -> (i: int)
    requires
        times_held(s, e) >= 1,
    ensures
        0 <= i < s.len(),
        s[i].events.contains(e),
    decreases s.len(),
{
    broadcast use vstd::seq_lib::group_to_multiset_ensures;

    if s.len() == 0 {
        assert(events_of(s) =~= Seq::empty());
        assert(events_of(s).contains(e));
        0
    } else {
        let front = s.drop_last();
        lemma_times_held(front, s.last(), e);
        assert(front.push(s.last()) =~= s);
        if s.last().events.to_multiset().count(e) > 0 {
            assert(s.last().events.contains(e));
            s.len() - 1
        } else {
            lemma_held_somewhere(front, e)
        }
    }
}

/// Whether `outer` lasts at least from the start to the end of `inner`.
pub open spec fn spans(outer: WindowModel, inner: WindowModel) -> bool {
    outer.from().not_after(inner.from()) && inner.until().not_after(outer.until())
}

/// Whether every window has events, and `p` holds of each of them.
pub open spec fn events_all(s: Seq<WindowModel>, p: spec_fn(WindowEventModel) -> bool) -> bool {
    forall|i: int|
        0 <= i < s.len() ==> (#[trigger] s[i]).events.len() > 0 && forall|k: int|
            0 <= k < s[i].events.len() ==> p(#[trigger] s[i].events[k])
}

/// What holds of every event of the windows given holds of every event of the merged ones.
pub(crate) proof fn lemma_merged_events_all(
    s: Seq<WindowModel>,
    gap: int,
    p: spec_fn(WindowEventModel) -> bool,
)
    requires
        events_all(s, p),
    ensures
        events_all(merged_windows(s, gap), p),
    decreases s.len(),
{
    if s.len() > 0 {
        let prior = s.drop_last();
        assert(events_all(prior, p)) by {
            assert(forall|i: int| 0 <= i < prior.len() ==> #[trigger] prior[i] == s[i]);
        }
        lemma_merged_events_all(prior, gap, p);
        let front = merged_windows(prior, gap);
        let r = merged_windows(s, gap);
        let last = s[s.len() - 1];
        assert forall|i: int| 0 <= i < r.len() implies (#[trigger] r[i]).events.len() > 0 && forall|
            k: int,
        |
            0 <= k < r[i].events.len() ==> p(#[trigger] r[i].events[k]) by {
            if i < front.len() {
                assert(front[i].events.len() > 0);
                assert forall|k: int| 0 <= k < r[i].events.len() implies p(
                    #[trigger] r[i].events[k],
                ) by {
                    if k < front[i].events.len() {
                        assert(r[i].events[k] == front[i].events[k]);
                    } else {
                        assert(r[i].events[k] == last.events[k - front[i].events.len()]);
                    }
                }
            } else {
                assert(r[i] == last);
            }
        }
    }
}

/// A merged window starts where a window starts, and ends where a window ends.
pub proof fn law_merged_window_has_given_ends(s: Seq<WindowModel>, gap: int, k: int)
    requires
        0 <= k < merged_windows(s, gap).len(),
    ensures
        exists|j: int|
            0 <= j < s.len() && (#[trigger] s[j]).from() == merged_windows(s, gap)[k].from(),
        exists|j: int|
            0 <= j < s.len() && (#[trigger] s[j]).until() == merged_windows(s, gap)[k].until(),
    decreases s.len(),
{
    let prior = s.drop_last();
    let front = merged_windows(prior, gap);
    let m = s.len() - 1;
    assert(s[m].from() == s.last().from() && s[m].until() == s.last().until());
    if k < front.len() {
        law_merged_window_has_given_ends(prior, gap, k);
        let i = choose|j: int| 0 <= j < prior.len() && (#[trigger] prior[j]).from() == front[k].from();
        let j = choose|j: int| 0 <= j < prior.len() && (#[trigger] prior[j]).until() == front[k].until();
        assert(s[i].from() == front[k].from());
        assert(s[j].until() == front[k].until());
    }
}

/// Every window of sorted ones lies within a merged window.
pub proof fn law_merging_covers_every_window(s: Seq<WindowModel>, gap: int, i: int)
    requires
        sorted_by_start(s),
        0 <= i < s.len(),
    ensures
        exists|k: int|
            0 <= k < merged_windows(s, gap).len() && spans(
                #[trigger] merged_windows(s, gap)[k],
                s[i],
            ),
    decreases s.len(),
{
    let prior = s.drop_last();
    let front = merged_windows(prior, gap);
    let r = merged_windows(s, gap);
    assert(sorted_by_start(prior));
    if i < prior.len() {
        law_merging_covers_every_window(prior, gap, i);
        let k = choose|k: int| 0 <= k < front.len() && spans(#[trigger] front[k], prior[i]);
        assert(spans(r[k], s[i]));
    } else {
        if front.len() > 0 {
            let last = front.len() - 1;
            law_merged_window_has_given_ends(prior, gap, last);
            let j = choose|j: int|
                0 <= j < prior.len() && (#[trigger] prior[j]).from() == front[last].from();
            assert(s[j].from().not_after(s[i].from()));
        }
        assert(spans(r[r.len() - 1], s[i]));
    }
}

/// Merging blocks nothing but the windows themselves and gaps before them of at most `gap`.
pub proof fn law_merging_fills_gaps_only(s: Seq<WindowModel>, gap: int, k: int, time: int)
    requires
        all_plain(s),
        0 <= k < merged_windows(s, gap).len(),
        merged_windows(s, gap)[k].active_at(time),
        gap >= 0,
    ensures
        exists|j: int|
            0 <= j < s.len() && (#[trigger] s[j]).start - gap <= time && time < s[j].end,
    decreases s.len(),
{
    let prior = s.drop_last();
    let front = merged_windows(prior, gap);
    let last = s.len() - 1;
    if k < front.len() && front[k].active_at(time) {
        law_merging_fills_gaps_only(prior, gap, k, time);
        let j = choose|j: int|
            0 <= j < prior.len() && (#[trigger] prior[j]).start - gap <= time && time
                < prior[j].end;
        assert(s[j] == prior[j]);
    } else {
        if k < front.len() {
            lemma_merged_plain(prior, gap);
            assert(s[last].plain() && front[k].plain());
        }
        assert(s[last].start - gap <= time && time < s[last].end);
    }
}

/// A merged window is active only while a window is, or in the gap from the end of one to the start
/// of another that is at most `gap` later.
pub proof fn law_merging_bridges_short_gaps(s: Seq<WindowModel>, gap: int, k: int, time: int)
    requires
        all_plain(s),
        forall|i: int| 0 <= i < s.len() ==> (#[trigger] s[i]).start <= s[i].end,
        0 <= k < merged_windows(s, gap).len(),
        merged_windows(s, gap)[k].active_at(time),
    ensures
        (exists|j: int| 0 <= j < s.len() && (#[trigger] s[j]).active_at(time)) || exists|i: int, j: int|
            0 <= i < s.len() && 0 <= j < s.len() && bridged(#[trigger] s[i], #[trigger] s[j], gap, time),
    decreases s.len(),
{
    let prior = s.drop_last();
    let front = merged_windows(prior, gap);
    let last = s.len() - 1;
    assert(forall|i: int| 0 <= i < prior.len() ==> #[trigger] prior[i] == s[i]);
    if k < front.len() && front[k].active_at(time) {
        law_merging_bridges_short_gaps(prior, gap, k, time);
        if exists|j: int| 0 <= j < prior.len() && (#[trigger] prior[j]).active_at(time) {
            let j = choose|j: int| 0 <= j < prior.len() && (#[trigger] prior[j]).active_at(time);
            assert(s[j].active_at(time));
        } else {
            let (i, j) = choose|i: int, j: int|
                0 <= i < prior.len() && 0 <= j < prior.len() && bridged(
                    #[trigger] prior[i],
                    #[trigger] prior[j],
                    gap,
                    time,
                );
            assert(bridged(s[i], s[j], gap, time));
        }
    } else if s[last].start <= time {
        assert(s[last].active_at(time));
    } else {
        law_merged_window_has_given_ends(prior, gap, k);
        let i = choose|j: int| 0 <= j < prior.len() && (#[trigger] prior[j]).until() == front[k].until();
        assert(bridged(s[i], s[last], gap, time));
    }
}

/// Whether `time` lies in a gap of at most `gap` from the end of `a` to the start of `b`.
pub open spec fn bridged(a: WindowModel, b: WindowModel, gap: int, time: int) -> bool {
    &&& a.start <= a.end <= time < b.start <= b.end
    &&& b.start - a.end <= gap
}

/// Merging leaves windows by their starts.
pub proof fn law_merged_windows_stay_sorted(s: Seq<WindowModel>, gap: int)
    requires
        sorted_by_start(s),
    ensures
        sorted_by_start(merged_windows(s, gap)),
    decreases s.len(),
{
    if s.len() > 0 {
        let prior = s.drop_last();
        let front = merged_windows(prior, gap);
        let r = merged_windows(s, gap);
        assert(sorted_by_start(prior));
        law_merged_windows_stay_sorted(prior, gap);
        assert forall|i: int, j: int| 0 <= i <= j < r.len() implies (
        #[trigger] r[i]).from().not_after((#[trigger] r[j]).from()) by {
            if j < front.len() {
                assert(front[i].from().not_after(front[j].from()));
            } else if i < front.len() {
                law_merged_window_has_given_ends(prior, gap, i);
                let k = choose|k: int|
                    0 <= k < prior.len() && (#[trigger] prior[k]).from() == front[i].from();
                assert(s[k].from().not_after(s[s.len() - 1].from()));
            }
        }
    }
}

/// Between a merged window and the next there is a gap longer than `gap`.
pub proof fn law_merged_neighbours_lie_apart(s: Seq<WindowModel>, gap: int, k: int)
    requires
        0 <= k < merged_windows(s, gap).len() - 1,
    ensures
        gap_between(merged_windows(s, gap)[k], merged_windows(s, gap)[k + 1]) > gap,
    decreases s.len(),
{
    let front = merged_windows(s.drop_last(), gap);
    if k + 1 < front.len() {
        law_merged_neighbours_lie_apart(s.drop_last(), gap, k);
    }
}

/// Of sorted windows, two with a gap between them of at most `gap` lie within one merged window.
pub proof fn law_close_windows_are_merged(s: Seq<WindowModel>, gap: int, i: int, j: int)
    requires
        all_plain(s),
        sorted_by_start(s),
        0 <= i < j < s.len(),
        s[j].start - s[i].end <= gap,
    ensures
        exists|k: int|
            0 <= k < merged_windows(s, gap).len() && spans(
                #[trigger] merged_windows(s, gap)[k],
                s[i],
            ) && spans(merged_windows(s, gap)[k], s[j]),
    decreases s.len(),
{
    let prior = s.drop_last();
    let front = merged_windows(prior, gap);
    let r = merged_windows(s, gap);
    assert(sorted_by_start(prior));
    if j < prior.len() {
        law_close_windows_are_merged(prior, gap, i, j);
        let k = choose|k: int|
            0 <= k < front.len() && spans(#[trigger] front[k], prior[i]) && spans(
                front[k],
                prior[j],
            );
        assert(spans(r[k], s[i]) && spans(r[k], s[j]));
    } else {
        law_merging_covers_every_window(prior, gap, i);
        let k = choose|k: int| 0 <= k < front.len() && spans(#[trigger] front[k], prior[i]);
        let last = front.len() - 1;
        law_merged_window_has_given_ends(prior, gap, last);
        let m = choose|m: int|
            0 <= m < prior.len() && (#[trigger] prior[m]).from() == front[last].from();
        assert(s[m].from().not_after(s[j].from()));
        lemma_merged_plain(prior, gap);
        assert(s[i].plain() && s[j].plain() && front[k].plain() && front[last].plain());
        if k < last {
            assert(front[k + 1].plain());
            law_merged_neighbours_lie_apart(prior, gap, k);
            law_merged_windows_stay_sorted(prior, gap);
            assert(front[k + 1].from().not_after(front[last].from()));
        }
        assert(spans(r[last], s[i]) && spans(r[last], s[j]));
    }
}

pub(crate) proof fn lemma_merged_are_forward(s: Seq<WindowModel>, gap: int)
    requires
        forall|i: int| 0 <= i < s.len() ==> (#[trigger] s[i]).start <= s[i].end,
    ensures
        forall|k: int|
            0 <= k < merged_windows(s, gap).len() ==> (#[trigger] merged_windows(s, gap)[k]).start
                <= merged_windows(s, gap)[k].end,
    decreases s.len(),
{
    if s.len() > 0 {
        assert(forall|i: int| 0 <= i < s.len() - 1 ==> #[trigger] s.drop_last()[i] == s[i]);
        assert(s.last() == s[s.len() - 1]);
        lemma_merged_are_forward(s.drop_last(), gap);
        let front = merged_windows(s.drop_last(), gap);
        if front.len() > 0 {
            assert(front[front.len() - 1].start <= front[front.len() - 1].end);
        }
    }
}

pub(crate) proof fn lemma_merged_plain(s: Seq<WindowModel>, gap: int)
    requires
        all_plain(s),
    ensures
        all_plain(merged_windows(s, gap)),
{
    let r = merged_windows(s, gap);
    assert forall|k: int| 0 <= k < r.len() implies (#[trigger] r[k]).plain() by {
        law_merged_window_has_given_ends(s, gap, k);
        let i = choose|j: int| 0 <= j < s.len() && (#[trigger] s[j]).from() == r[k].from();
        let j = choose|j: int| 0 <= j < s.len() && (#[trigger] s[j]).until() == r[k].until();
        assert(s[i].plain() && s[j].plain());
    }
}

/// Of sorted windows, any two merged ones have a gap longer than `gap` between them.
pub proof fn law_merged_windows_lie_apart(s: Seq<WindowModel>, gap: int, i: int, j: int)
    requires
        all_plain(s),
        sorted_by_start(s),
        0 <= i < j < merged_windows(s, gap).len(),
    ensures
        merged_windows(s, gap)[j].start - merged_windows(s, gap)[i].end > gap,
{
    let r = merged_windows(s, gap);
    lemma_merged_plain(s, gap);
    law_merged_neighbours_lie_apart(s, gap, i);
    law_merged_windows_stay_sorted(s, gap);
    assert(r[i].plain() && r[i + 1].plain() && r[i + 1].from().not_after(r[j].from()));
}

/// Merging takes windows in one by one: one more is joined to the last merged window where the time
/// from the end of that to its start is at most `gap`, and else comes behind it. A joined window
/// starts as the earlier one, ends with the later of both ends, and holds the events of both, in that
/// order.
pub proof fn law_windows_are_merged_in_turn(s: Seq<WindowModel>, w: WindowModel, gap: int)
    ensures
        merged_windows(Seq::empty(), gap).len() == 0,
        ({
            let before = merged_windows(s, gap);
            let after = merged_windows(s.push(w), gap);
            let n = before.len() as int;
            let joins = n > 0 && w.from().since(before[n - 1].until()) <= gap;
            &&& !joins ==> after == before.push(w)
            &&& joins ==> {
                &&& after.len() == n
                &&& forall|i: int| 0 <= i < n - 1 ==> #[trigger] after[i] == before[i]
                &&& after[n - 1].from() == before[n - 1].from()
                &&& after[n - 1].until() == w.until() || after[n - 1].until() == before[n - 1].until()
                &&& w.until().not_after(after[n - 1].until())
                &&& before[n - 1].until().not_after(after[n - 1].until())
                &&& after[n - 1].events == before[n - 1].events + w.events
            }
        }),
{
    assert(s.push(w).drop_last() =~= s);
}

/// The time from one window to another is counted from the end of the first to the start of the
/// second.
pub proof fn law_gap_lies_between_windows(a: WindowModel, b: WindowModel)
    ensures
        gap_between(a, b) == b.from().since(a.until()),
        a.plain() && b.plain() ==> gap_between(a, b) == b.start - a.end,
        spans(a, b) <==> a.from().not_after(b.from()) && b.until().not_after(a.until()),
{
}

} // verus!
