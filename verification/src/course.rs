//! Courses: named collections of stages sharing one completion instant.
//!
//! A `Course` owns its stages in insertion order. Scheduling is a pure
//! read: `Course::stages` sorts a snapshot and returns the countdown,
//! never touching the stored stages. A fresh course always holds exactly
//! one implicit terminal stage, "Serving" with zero span, the instant all
//! other stages count down to.

use vstd::prelude::*;

use crate::duration::{TimeDelta, NANOS_PER_SEC};
use crate::schedule::{countdown_stages, schedule_spec, sort_stages, lemma_sort_desc_props};
use crate::stage::{views, Stage, StageView};

verus! {

/// The mathematical content of `CourseDetails`.
pub ghost struct CourseDetailsView {
    pub id: Seq<char>,
    pub name: Seq<char>,
}

/// A course's identity and display name. The identity is an opaque token
/// assigned by an external registry, not by this crate.
#[derive(Debug, PartialEq)]
pub struct CourseDetails {
    id: String,
    name: String,
}

impl View for CourseDetails {
    type V = CourseDetailsView;

    closed spec fn view(&self) -> CourseDetailsView {
        CourseDetailsView { id: self.id@, name: self.name@ }
    }
}

impl Clone for CourseDetails {
    fn clone(&self) -> (r: Self)
        ensures
            r == *self,
    {
        CourseDetails { id: self.id.clone(), name: self.name.clone() }
    }
}

impl CourseDetails {
    pub fn new(id: &str, name: &str) -> (r: CourseDetails)
        ensures
            r@.id == id@,
            r@.name == name@,
    {
        CourseDetails { id: id.to_owned(), name: name.to_owned() }
    }

    pub fn name(&self) -> (r: &str)
        ensures
            r@ == self@.name,
    {
        self.name.as_str()
    }

    pub fn id(&self) -> (r: &str)
        ensures
            r@ == self@.id,
    {
        self.id.as_str()
    }

    /// Replaces the identity; the registry calls this when it assigns one.
    pub fn set_id(&mut self, id: &str)
        ensures
            final(self)@.id == id@,
            final(self)@.name == old(self)@.name,
    {
        self.id = id.to_owned();
    }
}

/// The mathematical content of a `Course`.
pub ghost struct CourseView {
    pub details: CourseDetailsView,
    pub stages: Seq<StageView>,
}

/// A named collection of stages sharing one completion instant.
#[derive(Debug, PartialEq)]
pub struct Course {
    details: CourseDetails,
    stages: Vec<Stage>,
}

impl View for Course {
    type V = CourseView;

    closed spec fn view(&self) -> CourseView {
        CourseView { details: self.details@, stages: views(self.stages@) }
    }
}

impl Clone for Course {
    fn clone(&self) -> (r: Self)
        ensures
            r@ == self@,
    {
        let mut stages: Vec<Stage> = Vec::new();
        let mut i: usize = 0;
        proof {
            assert(views(stages@) =~= views(self.stages@).take(0));
        }
        while i < self.stages.len()
            invariant
                i <= self.stages@.len(),
                views(stages@) == views(self.stages@).take(i as int),
            decreases self.stages@.len() - i,
        {
            let st = self.stages[i].clone();
            proof {
                assert(views(stages@.push(st)) =~= views(stages@).push(st@));
                assert(views(self.stages@).take(i + 1) =~= views(self.stages@).take(
                    i as int,
                ).push(self.stages@[i as int]@));
            }
            stages.push(st);
            i = i + 1;
        }
        proof {
            assert(views(self.stages@).take(self.stages@.len() as int) =~= views(self.stages@));
        }
        Course { details: self.details.clone(), stages }
    }
}

/// The view of the implicit terminal stage every fresh course holds.
pub open spec fn serving_stage() -> StageView {
    StageView { name: "Serving"@, nanos: 0 }
}

impl Course {
    /// A fresh course: the given details and exactly the implicit terminal
    /// stage, "Serving" with zero span.
    pub fn new(details: &CourseDetails) -> (r: Course)
        ensures
            r@.details == details@,
            r@.stages == seq![serving_stage()],
    {
        let mut stages: Vec<Stage> = Vec::new();
        stages.push(Stage::with_delta("Serving", TimeDelta::zero()));
        proof {
            assert(views(stages@) =~= seq![serving_stage()]);
        }
        Course { details: details.clone(), stages }
    }

    /// Appends a stage; the stored stages keep their insertion order.
    pub fn add(&mut self, stage: Stage)
        ensures
            final(self)@.details == old(self)@.details,
            final(self)@.stages == old(self)@.stages.push(stage@),
    {
        proof {
            assert(views(self.stages@.push(stage)) =~= views(self.stages@).push(stage@));
        }
        self.stages.push(stage);
    }

    pub fn details(&self) -> (r: &CourseDetails)
        ensures
            r@ == self@.details,
    {
        &self.details
    }

    pub fn name(&self) -> (r: &str)
        ensures
            r@ == self@.details.name,
    {
        self.details.name()
    }

    /// The Timeline Scheduler's countdown view of this course: a snapshot
    /// of the stages sorted by lead-time, longest first and stable, then
    /// each consecutive pair emitting the earlier action's name with the
    /// wait before the next action must start. A pure read: the stored
    /// stages are untouched.
    pub fn stages(&self) -> (r: Vec<Stage>)
        ensures
            views(r@) == schedule_spec(self@.stages),
    {
        let sorted = sort_stages(&self.stages);
        proof {
            lemma_sort_desc_props(views(self.stages@));
        }
        countdown_stages(&sorted)
    }

    /// A fresh course seeded with one stage per given word: the `i`-th
    /// word's stage gets `30 + 20 * i` whole seconds of lead-time, after
    /// the implicit terminal stage.
    pub fn seeded(details: &CourseDetails, words: &Vec<String>) -> (r: Course)
        requires
            30 + 20 * words@.len() <= u64::MAX,
        ensures
            r@.details == details@,
            r@.stages == seq![serving_stage()] + Seq::new(
                words@.len(),
                |i: int| StageView {
                    name: words@[i]@,
                    nanos: (30 + 20 * i) * (NANOS_PER_SEC as int),
                },
            ),
    {
        let ghost seeds = Seq::new(
            words@.len(),
            |i: int| StageView { name: words@[i]@, nanos: (30 + 20 * i) * (NANOS_PER_SEC as int) },
        );
        let mut course = Course::new(details);
        let mut i: usize = 0;
        proof {
            assert(course@.stages =~= seq![serving_stage()] + seeds.take(0));
        }
        while i < words.len()
            invariant
                i <= words@.len(),
                30 + 20 * words@.len() <= u64::MAX,
                seeds == Seq::new(
                    words@.len(),
                    |k: int| StageView {
                        name: words@[k]@,
                        nanos: (30 + 20 * k) * (NANOS_PER_SEC as int),
                    },
                ),
                course@.details == details@,
                course@.stages == seq![serving_stage()] + seeds.take(i as int),
            decreases words@.len() - i,
        {
            let secs: u64 = 30 + 20 * (i as u64);
            let stage = Stage::with_delta(words[i].as_str(), TimeDelta::from_secs(secs));
            proof {
                assert(stage@ == seeds[i as int]);
                assert((seq![serving_stage()] + seeds.take(i as int)).push(stage@) =~= seq![
                    serving_stage(),
                ] + seeds.take(i + 1));
            }
            course.add(stage);
            i = i + 1;
        }
        proof {
            assert(seeds.take(words@.len() as int) =~= seeds);
        }
        course
    }
}

} // verus!
