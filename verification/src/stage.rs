//! Stages: named actions with a span of time, and the Chain Linker.
//!
//! A `Stage` couples a display label with a `TimeDelta`. Stored in a
//! course, the span is the lead-time before the shared completion instant;
//! in the countdown that `Course::stages` returns it is the wait before the
//! next action starts. `Stage::chain` converts an ordered list of dependent
//! sub-steps into stages carrying absolute lead-times by backward
//! cumulative summation.

use vstd::prelude::*;

use crate::duration::{
    delta_of_text, formatted_nanos, format_delta, lemma_delta_bounds, max_delta_nanos, TimeDelta,
};

verus! {

use vstd::string::StringExecFns;
use vstd::string::StringSliceAdditionalSpecFns;

/// The mathematical content of a `Stage`: its label and its span in
/// nanoseconds.
pub ghost struct StageView {
    pub name: Seq<char>,
    pub nanos: int,
}

/// A named action together with a span of time.
#[derive(Debug, PartialEq)]
pub struct Stage {
    name: String,
    delta: TimeDelta,
}

impl View for Stage {
    type V = StageView;

    closed spec fn view(&self) -> StageView {
        StageView { name: self.name@, nanos: self.delta@ }
    }
}

impl Clone for Stage {
    fn clone(&self) -> (r: Self)
        ensures
            r == *self,
    {
        Stage { name: self.name.clone(), delta: self.delta }
    }
}

/// The views of a sequence of stages.
pub open spec fn views(s: Seq<Stage>) -> Seq<StageView> {
    s.map_values(|st: Stage| st@)
}

/// Every stage's span is non-negative and bounded by the largest
/// representable one.
pub proof fn lemma_views_bounds(s: Seq<Stage>)
    ensures
        views(s).len() == s.len(),
        forall|k: int| 0 <= k < s.len() ==> 0 <= #[trigger] views(s)[k].nanos <= max_delta_nanos(),
{
    assert forall|k: int| 0 <= k < s.len() implies 0 <= #[trigger] views(s)[k].nanos
        <= max_delta_nanos() by {
        lemma_delta_bounds(s[k].delta);
    }
}

/// The sum of all spans in the sequence, in nanoseconds.
pub open spec fn total_nanos(s: Seq<StageView>) -> int
    decreases s.len(),
{
    if s.len() == 0 {
        0
    } else {
        s[0].nanos + total_nanos(s.drop_first())
    }
}

/// What the Chain Linker produces: the input reversed, each element's span
/// replaced by the sum of its own span and every span after it in the
/// input.
pub open spec fn chain_spec(s: Seq<StageView>) -> Seq<StageView>
    decreases s.len(),
{
    if s.len() == 0 {
        Seq::empty()
    } else {
        chain_spec(s.drop_first()).push(StageView { name: s[0].name, nanos: total_nanos(s) })
    }
}

proof fn lemma_total_nonneg(s: Seq<StageView>)
    requires
        forall|k: int| 0 <= k < s.len() ==> #[trigger] s[k].nanos >= 0,
    ensures
        total_nanos(s) >= 0,
    decreases s.len(),
{
    if s.len() > 0 {
        lemma_total_nonneg(s.drop_first());
    }
}

/// Removing the first element takes its span off the total.
proof fn lemma_total_skip_step(s: Seq<StageView>, i: int)
    requires
        0 <= i < s.len(),
    ensures
        total_nanos(s.skip(i)) == s[i].nanos + total_nanos(s.skip(i + 1)),
{
    assert(s.skip(i).drop_first() =~= s.skip(i + 1));
}

/// A suffix never sums to more than the whole, nor below zero.
proof fn lemma_total_skip_bounds(s: Seq<StageView>, i: int)
    requires
        0 <= i <= s.len(),
        forall|k: int| 0 <= k < s.len() ==> #[trigger] s[k].nanos >= 0,
    ensures
        0 <= total_nanos(s.skip(i)) <= total_nanos(s),
    decreases i,
{
    assert(forall|k: int|
        0 <= k < s.skip(i).len() ==> #[trigger] s.skip(i)[k].nanos >= 0);
    lemma_total_nonneg(s.skip(i));
    if i == 0 {
        assert(s.skip(0) =~= s);
    } else {
        lemma_total_skip_bounds(s, i - 1);
        lemma_total_skip_step(s, i - 1);
    }
}

/// The chain keeps the input's length, and its k-th element is the
/// (k-th-from-last) input stage carrying the sum of its own span and every
/// span after it in the input.
pub proof fn lemma_chain_elements(s: Seq<StageView>)
    ensures
        chain_spec(s).len() == s.len(),
        forall|k: int| 0 <= k < s.len() ==> (#[trigger] chain_spec(s)[k]).name
            == s[s.len() - 1 - k].name,
        forall|k: int| 0 <= k < s.len() ==> (#[trigger] chain_spec(s)[k]).nanos
            == total_nanos(s.skip(s.len() - 1 - k)),
    decreases s.len(),
{
    if s.len() > 0 {
        let df = s.drop_first();
        lemma_chain_elements(df);
        assert(s.skip(0) =~= s);
        assert forall|k: int| 0 <= k < s.len() implies (#[trigger] chain_spec(s)[k]).name
            == s[s.len() - 1 - k].name && chain_spec(s)[k].nanos
            == total_nanos(s.skip(s.len() - 1 - k)) by {
            if k < s.len() - 1 {
                assert(chain_spec(s)[k] == chain_spec(df)[k]);
                assert(df[df.len() - 1 - k].name == s[s.len() - 1 - k].name);
                assert(df.skip(df.len() - 1 - k) =~= s.skip(s.len() - 1 - k));
            }
        }
    }
}

/// The last emitted stage of a chain carries the first input's name and
/// the sum of all input spans: the chain's total length.
pub proof fn lemma_chain_total(s: Seq<StageView>)
    requires
        s.len() > 0,
    ensures
        chain_spec(s).len() == s.len(),
        chain_spec(s).last().name == s[0].name,
        chain_spec(s).last().nanos == total_nanos(s),
{
    lemma_chain_elements(s);
    assert(s.skip(0) =~= s);
}

impl Stage {
    /// Builds a stage, reading the duration text with the Duration Parser:
    /// text that does not parse yields a zero span, never an error.
    pub fn new(name: &str, duration: &str) -> (r: Stage)
        ensures
            r@.name == name@,
            r@.nanos == delta_of_text(duration.spec_bytes()),
    {
        Stage { name: name.to_owned(), delta: TimeDelta::parse_or_zero(duration) }
    }

    /// Builds a stage from an already-computed span.
    pub fn with_delta(name: &str, delta: TimeDelta) -> (r: Stage)
        ensures
            r@ == (StageView { name: name@, nanos: delta@ }),
    {
        Stage { name: name.to_owned(), delta }
    }

    /// The stage's label.
    pub fn name(&self) -> (r: &str)
        ensures
            r@ == self@.name,
    {
        self.name.as_str()
    }

    /// The stage's span.
    pub fn delta(&self) -> (r: TimeDelta)
        ensures
            r@ == self@.nanos,
    {
        self.delta
    }

    /// The stage's span rendered as duration text.
    pub fn duration(&self) -> (r: String)
        ensures
            r@ == formatted_nanos(self@.nanos),
    {
        format_delta(self.delta)
    }

    /// One display line: the duration, a separator, the name.
    pub fn label(&self) -> (r: String)
        ensures
            r@ == formatted_nanos(self@.nanos) + " -- "@ + self@.name,
    {
        let mut out = self.duration();
        out.append(" -- ");
        out.append(self.name.as_str());
        out
    }

    /// The Chain Linker: walks the dependent sub-steps from the last to the
    /// first, accumulating their spans, so each emitted stage carries the
    /// absolute lead-time at which it must start for the whole chain to end
    /// on time. Emits in that reverse order. The summed spans must fit the
    /// largest representable delta; `chain_checked` takes any input.
    pub fn chain(links: Vec<Stage>) -> (r: Vec<Stage>)
        requires
            total_nanos(views(links@)) <= max_delta_nanos(),
        ensures
            views(r@) == chain_spec(views(links@)),
    {
        Stage::chain_checked(links).unwrap()
    }

    /// The Chain Linker for any input: `None` where the summed spans would
    /// not fit the largest representable delta.
    pub fn chain_checked(links: Vec<Stage>) -> (r: Option<Vec<Stage>>)
        ensures
            total_nanos(views(links@)) <= max_delta_nanos() ==> (r matches Some(v) && views(v@)
                == chain_spec(views(links@))),
            total_nanos(views(links@)) > max_delta_nanos() ==> r is None,
    {
        let ghost vs = views(links@);
        proof {
            lemma_views_bounds(links@);
        }
        let mut r: Vec<Stage> = Vec::new();
        let mut acc = TimeDelta::zero();
        let mut i: usize = links.len();
        proof {
            assert(vs.skip(links@.len() as int) =~= Seq::<StageView>::empty());
        }
        while i > 0
            invariant
                i <= links.len(),
                links@.len() == vs.len(),
                vs == views(links@),
                forall|k: int| 0 <= k < vs.len() ==> 0 <= #[trigger] vs[k].nanos,
                acc@ == total_nanos(vs.skip(i as int)),
                views(r@) == chain_spec(vs.skip(i as int)),
            decreases i,
        {
            i = i - 1;
            proof {
                lemma_total_skip_step(vs, i as int);
                lemma_total_skip_bounds(vs, i as int);
                assert(vs[i as int] == links@[i as int]@);
            }
            let next = match acc.checked_add(links[i].delta()) {
                Some(d) => d,
                None => {
                    // the suffix already overflows, so the whole does
                    return None;
                },
            };
            acc = next;
            let stage = Stage::with_delta(links[i].name(), next);
            proof {
                assert(vs.skip(i as int).drop_first() =~= vs.skip(i + 1));
                assert(vs.skip(i as int)[0] == vs[i as int]);
                assert(views(r@.push(stage)) =~= views(r@).push(stage@));
            }
            r.push(stage);
        }
        proof {
            assert(vs.skip(0) =~= vs);
            // the total was accumulated in a delta, so it fits
            lemma_delta_bounds(acc);
        }
        Some(r)
    }
}

} // verus!
