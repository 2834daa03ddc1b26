//! The Timeline Scheduler: from lead-times to a countdown.
//!
//! A course's stages each carry an absolute lead-time before the shared
//! completion instant. The scheduler sorts a snapshot of them by span,
//! longest first and stable, then pairs consecutive entries: each pair
//! emits the earlier action's name with the wait until the next action
//! must start. `sort_desc`, `countdown` and `schedule_spec` are the
//! mathematical statement; the exec functions here realize them over
//! `Vec<Stage>`.

use vstd::prelude::*;

use crate::stage::{views, Stage, StageView};

verus! {

use vstd::multiset::Multiset;
use vstd::seq_lib::lemma_multiset_commutative;
use vstd::seq_lib::to_multiset_build;

/// Descending order by span: every earlier element lasts at least as long.
pub open spec fn sorted_desc(s: Seq<StageView>) -> bool {
    forall|i: int, j: int| 0 <= i < j < s.len() ==> s[i].nanos >= s[j].nanos
}

/// Stable insertion: `x` goes after every element whose span is at least
/// as long as its own, before the first strictly shorter one.
pub open spec fn insert_desc(x: StageView, s: Seq<StageView>) -> Seq<StageView>
    decreases s.len(),
{
    if s.len() == 0 {
        seq![x]
    } else if x.nanos > s[0].nanos {
        seq![x] + s
    } else {
        seq![s[0]] + insert_desc(x, s.drop_first())
    }
}

/// Stable insertion sort, longest span first.
pub open spec fn sort_desc(s: Seq<StageView>) -> Seq<StageView>
    decreases s.len(),
{
    if s.len() == 0 {
        Seq::empty()
    } else {
        insert_desc(s.last(), sort_desc(s.drop_last()))
    }
}

/// The index at which `insert_desc` places its element.
spec fn insert_pos(x: StageView, s: Seq<StageView>) -> int
    decreases s.len(),
{
    if s.len() == 0 {
        0
    } else if x.nanos > s[0].nanos {
        0
    } else {
        1 + insert_pos(x, s.drop_first())
    }
}

/// Selects the stage views whose span is exactly `d` nanoseconds.
pub open spec fn with_nanos(d: int) -> spec_fn(StageView) -> bool {
    |v: StageView| v.nanos == d
}

/// The countdown read off a sorted sequence: every consecutive pair emits
/// the earlier stage's name with the wait until the later one starts.
pub open spec fn countdown(t: Seq<StageView>) -> Seq<StageView> {
    if t.len() == 0 {
        Seq::empty()
    } else {
        Seq::new(
            (t.len() - 1) as nat,
            |i: int| StageView { name: t[i].name, nanos: t[i].nanos - t[i + 1].nanos },
        )
    }
}

/// What the Timeline Scheduler computes from a course's stage views.
pub open spec fn schedule_spec(s: Seq<StageView>) -> Seq<StageView> {
    countdown(sort_desc(s))
}

/// `insert_desc` splits the sequence at any index that is preceded only by
/// spans at least as long as `x`'s and followed by a strictly shorter one.
proof fn lemma_insert_desc_at(x: StageView, s: Seq<StageView>, j: int)
    requires
        0 <= j <= s.len(),
        forall|k: int| 0 <= k < j ==> (#[trigger] s[k]).nanos >= x.nanos,
        j < s.len() ==> x.nanos > s[j].nanos,
    ensures
        insert_desc(x, s) == s.take(j) + seq![x] + s.skip(j),
    decreases j,
{
    if j == 0 {
        if s.len() == 0 {
            assert(insert_desc(x, s) =~= s.take(0) + seq![x] + s.skip(0));
        } else {
            assert(x.nanos > s[0].nanos);
            assert(seq![x] + s =~= s.take(0) + seq![x] + s.skip(0));
        }
    } else {
        assert(s[0].nanos >= x.nanos);
        let df = s.drop_first();
        assert forall|k: int| 0 <= k < j - 1 implies (#[trigger] df[k]).nanos >= x.nanos by {
            assert(df[k] == s[k + 1]);
        }
        lemma_insert_desc_at(x, df, j - 1);
        assert(seq![s[0]] + (df.take(j - 1) + seq![x] + df.skip(j - 1)) =~= s.take(j) + seq![x]
            + s.skip(j));
    }
}

/// Where stable insertion puts its element, and the split it produces.
proof fn lemma_insert_pos_props(x: StageView, s: Seq<StageView>)
    ensures
        0 <= insert_pos(x, s) <= s.len(),
        forall|k: int| 0 <= k < insert_pos(x, s) ==> (#[trigger] s[k]).nanos >= x.nanos,
        insert_pos(x, s) < s.len() ==> x.nanos > s[insert_pos(x, s)].nanos,
        insert_desc(x, s) == s.take(insert_pos(x, s)) + seq![x] + s.skip(insert_pos(x, s)),
    decreases s.len(),
{
    let j = insert_pos(x, s);
    if s.len() == 0 {
    } else if x.nanos > s[0].nanos {
    } else {
        let df = s.drop_first();
        lemma_insert_pos_props(x, df);
        assert forall|k: int| 0 <= k < j implies (#[trigger] s[k]).nanos >= x.nanos by {
            if k > 0 {
                assert(df[k - 1].nanos >= x.nanos);
            }
        }
        if j < s.len() {
            assert(s[j] == df[j - 1]);
        }
    }
    lemma_insert_desc_at(x, s, j);
}

/// A one-element sequence holds exactly that element.
proof fn lemma_singleton_multiset(x: StageView)
    ensures
        seq![x].to_multiset() == Multiset::empty().insert(x),
{
    broadcast use vstd::seq_lib::group_to_multiset_ensures;

    assert(seq![x] =~= Seq::<StageView>::empty().push(x));
    assert(Seq::<StageView>::empty().to_multiset() =~= Multiset::<StageView>::empty());
    assert(seq![x].to_multiset() =~= Multiset::empty().insert(x));
}

/// Filtering keeps nothing of a sequence none of whose elements match.
proof fn lemma_filter_none(s: Seq<StageView>, p: spec_fn(StageView) -> bool)
    requires
        forall|k: int| 0 <= k < s.len() ==> !p(#[trigger] s[k]),
    ensures
        s.filter(p) == Seq::<StageView>::empty(),
    decreases s.len(),
{
    reveal(Seq::filter);
    if s.len() > 0 {
        lemma_filter_none(s.drop_last(), p);
    }
}

/// Stable insertion grows the sequence by its element, keeps a sorted
/// sequence sorted, and keeps the contents as a multiset.
proof fn lemma_insert_desc_props(x: StageView, s: Seq<StageView>)
    ensures
        insert_desc(x, s).len() == s.len() + 1,
        insert_desc(x, s).to_multiset() == s.to_multiset().insert(x),
        sorted_desc(s) ==> sorted_desc(insert_desc(x, s)),
{
    broadcast use vstd::multiset::group_multiset_axioms;

    lemma_insert_pos_props(x, s);
    let j = insert_pos(x, s);
    let t = insert_desc(x, s);
    assert(s.take(j) + s.skip(j) =~= s);
    lemma_multiset_commutative(s.take(j) + seq![x], s.skip(j));
    lemma_multiset_commutative(s.take(j), seq![x]);
    lemma_multiset_commutative(s.take(j), s.skip(j));
    lemma_singleton_multiset(x);
    assert(t.to_multiset() =~= s.to_multiset().insert(x));
    if sorted_desc(s) {
        assert forall|a: int, b: int| 0 <= a < b < t.len() implies t[a].nanos >= t[b].nanos by {
            if a < j {
                assert(t[a] == s[a]);
            } else if a == j {
                assert(t[a] == x);
            } else {
                assert(t[a] == s[a - 1]);
            }
            if b < j {
                assert(t[b] == s[b]);
            } else if b == j {
                assert(t[b] == x);
            } else {
                assert(t[b] == s[b - 1]);
            }
        }
    }
}

/// Inserting into a sorted sequence appends the element to its own span
/// class and leaves every other span class unchanged.
proof fn lemma_insert_desc_filter(x: StageView, s: Seq<StageView>, d: int)
    requires
        sorted_desc(s),
    ensures
        insert_desc(x, s).filter(with_nanos(d)) == if x.nanos == d {
            s.filter(with_nanos(d)).push(x)
        } else {
            s.filter(with_nanos(d))
        },
{
    let p = with_nanos(d);
    lemma_insert_pos_props(x, s);
    let j = insert_pos(x, s);
    let t = insert_desc(x, s);
    assert(s.take(j) + s.skip(j) =~= s);
    Seq::filter_distributes_over_add(s.take(j) + seq![x], s.skip(j), p);
    Seq::filter_distributes_over_add(s.take(j), seq![x], p);
    Seq::filter_distributes_over_add(s.take(j), s.skip(j), p);
    Seq::<StageView>::empty().lemma_filter_push(x, p);
    assert(seq![x] =~= Seq::<StageView>::empty().push(x));
    assert(Seq::<StageView>::empty().filter(p) == Seq::<StageView>::empty()) by {
        lemma_filter_none(Seq::<StageView>::empty(), p);
    }
    if x.nanos == d {
        // everything past the insertion point is strictly shorter than x,
        // so the span class of x ends at the insertion point
        assert forall|k: int| 0 <= k < s.skip(j).len() implies !p(#[trigger] s.skip(j)[k]) by {
            assert(s.skip(j)[k] == s[j + k]);
            if k == 0 {
                assert(x.nanos > s[j].nanos);
            } else {
                assert(s[j].nanos >= s[j + k].nanos);
            }
        }
        lemma_filter_none(s.skip(j), p);
        assert(seq![x].filter(p) =~= seq![x]);
        assert(t.filter(p) =~= s.filter(p).push(x));
    } else {
        assert(seq![x].filter(p) =~= Seq::<StageView>::empty());
        assert(t.filter(p) =~= s.filter(p));
    }
}

/// The sort keeps the number of stages and their multiset of views, and
/// leaves them in descending span order.
pub proof fn lemma_sort_desc_props(s: Seq<StageView>)
    ensures
        sort_desc(s).len() == s.len(),
        sorted_desc(sort_desc(s)),
        sort_desc(s).to_multiset() == s.to_multiset(),
    decreases s.len(),
{
    if s.len() == 0 {
        assert(s =~= Seq::<StageView>::empty());
    } else {
        lemma_sort_desc_props(s.drop_last());
        lemma_insert_desc_props(s.last(), sort_desc(s.drop_last()));
        to_multiset_build(s.drop_last(), s.last());
        assert(s.drop_last().push(s.last()) =~= s);
        assert(s.drop_last().push(s.last()).to_multiset() =~= s.drop_last().to_multiset().insert(
            s.last(),
        ));
    }
}

/// Stability: for every span, the sorted sequence's stages of that span
/// are exactly the input's stages of that span, in the input's order.
pub proof fn lemma_sort_desc_stable(s: Seq<StageView>, d: int)
    ensures
        sort_desc(s).filter(with_nanos(d)) == s.filter(with_nanos(d)),
    decreases s.len(),
{
    let p = with_nanos(d);
    if s.len() == 0 {
        lemma_filter_none(s, p);
    } else {
        lemma_sort_desc_stable(s.drop_last(), d);
        lemma_sort_desc_props(s.drop_last());
        lemma_insert_desc_filter(s.last(), sort_desc(s.drop_last()), d);
        s.drop_last().lemma_filter_push(s.last(), p);
        assert(s.drop_last().push(s.last()) =~= s);
    }
}

/// A stage set of `n` stages yields a schedule of `max(n - 1, 0)` waits.
pub proof fn lemma_schedule_len(s: Seq<StageView>)
    ensures
        s.len() == 0 ==> schedule_spec(s).len() == 0,
        s.len() > 0 ==> schedule_spec(s).len() == s.len() - 1,
{
    lemma_sort_desc_props(s);
}

/// Every schedule entry carries the earlier stage's name and the
/// difference of two adjacent spans in the descending order — never
/// negative.
pub proof fn lemma_schedule_waits(s: Seq<StageView>)
    ensures
        forall|i: int| 0 <= i < schedule_spec(s).len() ==> (#[trigger] schedule_spec(s)[i]).nanos
            == sort_desc(s)[i].nanos - sort_desc(s)[i + 1].nanos,
        forall|i: int| 0 <= i < schedule_spec(s).len() ==> (#[trigger] schedule_spec(s)[i]).nanos
            >= 0,
        forall|i: int| 0 <= i < schedule_spec(s).len() ==> (#[trigger] schedule_spec(s)[i]).name
            == sort_desc(s)[i].name,
{
    lemma_sort_desc_props(s);
}

/// Inserts the stage at its stable descending position.
fn insert_sorted(r: &mut Vec<Stage>, x: Stage)
    ensures
        views(final(r)@) == insert_desc(x@, views(old(r)@)),
{
    let ghost vs = views(old(r)@);
    let xd = x.delta();
    let mut j: usize = 0;
    while j < r.len() && r[j].delta().ge(xd)
        invariant
            j <= r@.len(),
            *r == *old(r),
            vs == views(r@),
            xd@ == x@.nanos,
            forall|k: int| 0 <= k < j ==> (#[trigger] vs[k]).nanos >= x@.nanos,
        decreases r@.len() - j,
    {
        proof {
            assert(vs[j as int] == r@[j as int]@);
        }
        j = j + 1;
    }
    proof {
        if (j as int) < vs.len() {
            assert(vs[j as int] == r@[j as int]@);
        }
        lemma_insert_desc_at(x@, vs, j as int);
    }
    r.insert(j, x);
    proof {
        assert(views(r@) =~= vs.take(j as int) + seq![x@] + vs.skip(j as int));
    }
}

/// A copy of the stages in stable descending span order.
pub(crate) fn sort_stages(v: &Vec<Stage>) -> (r: Vec<Stage>)
    ensures
        views(r@) == sort_desc(views(v@)),
{
    let mut r: Vec<Stage> = Vec::new();
    let mut i: usize = 0;
    proof {
        assert(views(r@) =~= Seq::<StageView>::empty());
        assert(views(v@).take(0) =~= Seq::<StageView>::empty());
    }
    while i < v.len()
        invariant
            i <= v@.len(),
            views(r@) == sort_desc(views(v@).take(i as int)),
        decreases v@.len() - i,
    {
        let next = v[i].clone();
        proof {
            let t = views(v@).take(i + 1);
            assert(t.drop_last() =~= views(v@).take(i as int));
            assert(t.last() == v@[i as int]@);
            assert(next@ == v@[i as int]@);
        }
        insert_sorted(&mut r, next);
        i = i + 1;
    }
    proof {
        assert(views(v@).take(v@.len() as int) =~= views(v@));
    }
    r
}

/// The countdown built from a sorted copy of the stages.
pub(crate) fn countdown_stages(sorted: &Vec<Stage>) -> (r: Vec<Stage>)
    requires
        sorted_desc(views(sorted@)),
    ensures
        views(r@) == countdown(views(sorted@)),
{
    let ghost t = views(sorted@);
    let mut r: Vec<Stage> = Vec::new();
    let n = sorted.len();
    proof {
        assert(views(r@) =~= Seq::<StageView>::empty());
    }
    if n == 0 {
        proof {
            assert(countdown(t) =~= Seq::<StageView>::empty());
        }
        return r;
    }
    let mut i: usize = 0;
    proof {
        assert(countdown(t).take(0) =~= Seq::<StageView>::empty());
    }
    while i < n - 1
        invariant
            t == views(sorted@),
            sorted_desc(t),
            1 <= n == sorted@.len(),
            i <= n - 1,
            views(r@) == countdown(t).take(i as int),
        decreases sorted@.len() - i,
    {
        proof {
            assert(t[i as int] == sorted@[i as int]@);
            assert(t[i + 1] == sorted@[i + 1]@);
        }
        let wait = sorted[i].delta().diff(sorted[i + 1].delta());
        let step = Stage::with_delta(sorted[i].name(), wait);
        proof {
            assert(countdown(t)[i as int] == step@);
            assert(countdown(t).take(i + 1) =~= countdown(t).take(i as int).push(step@));
            assert(views(r@.push(step)) =~= views(r@).push(step@));
        }
        r.push(step);
        i = i + 1;
    }
    proof {
        assert(i as int == t.len() - 1);
        assert(countdown(t).take(i as int) =~= countdown(t));
    }
    r
}

} // verus!
