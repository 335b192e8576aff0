//! Workout echoes, and the programs and templates that plan them.

use vstd::prelude::*;

use super::echo::{Echo, EchoContent};
use crate::calendar::Date;
use crate::ids::{is_random_uuid, Id};

verus! {

/// A set as performed. The weight is the bit pattern of an `f32` (as from
/// `f32::to_bits`).
#[derive(Clone, Copy, Debug)]
pub struct SetEntry {
    pub reps: u32,
    pub weight: Option<u32>,
    pub completed: bool,
    pub rest_seconds: Option<u32>,
    pub is_warmup: bool,
}

/// An exercise as performed, with its sets in order.
#[derive(Clone, Debug)]
pub struct PerformedExercise {
    pub name: String,
    pub sets: Vec<SetEntry>,
}

/// A set as planned. The target weight is the bit pattern of an `f32`.
#[derive(Clone, Copy, Debug)]
pub struct PlannedSet {
    pub target_reps: Option<u32>,
    pub target_weight: Option<u32>,
    pub target_rest_seconds: Option<u32>,
    pub is_warmup: bool,
}

/// An exercise as planned in a template.
#[derive(Clone, Debug)]
pub struct PlannedExercise {
    pub name: String,
    pub sets: Vec<PlannedSet>,
    pub notes: Option<String>,
    pub superset_group: Option<u8>,
}

/// The content of a workout echo.
#[derive(Clone, Debug)]
pub struct WorkoutData {
    pub template_id: Option<Id>,
    pub exercises: Vec<PerformedExercise>,
    pub duration_minutes: Option<u32>,
    pub notes: Option<String>,
    pub perceived_effort: Option<u8>,
}

/// A named group of workout templates.
#[derive(Clone, Debug)]
pub struct WorkoutProgram {
    pub id: Id,
    pub name: String,
    pub notes: Option<String>,
}

/// A planned workout: exercises with their planned sets.
#[derive(Clone, Debug)]
pub struct WorkoutTemplate {
    pub id: Id,
    pub name: String,
    pub program_id: Option<Id>,
    pub sort_order: i32,
    pub exercises: Vec<PlannedExercise>,
}

/// The exercises of the workouts among `s`, echo after echo.
pub open spec fn workout_exercises(s: Seq<Echo>) -> Seq<PerformedExercise>
    decreases s.len(),
{
    if s.len() == 0 {
        Seq::empty()
    } else {
        workout_exercises(s.drop_last()) + match s.last().content {
            EchoContent::WorkoutEcho(w) => w.exercises@,
            _ => Seq::empty(),
        }
    }
}

/// The first exercise of `s` named `name`.
pub open spec fn first_named(s: Seq<PerformedExercise>, name: Seq<char>) -> Option<
    PerformedExercise,
>
    decreases s.len(),
{
    if s.len() == 0 {
        None
    } else if s[0].name@ == name {
        Some(s[0])
    } else {
        first_named(s.drop_first(), name)
    }
}

/// Set `i` of the first exercise named `name` in `past`, if there is one.
pub open spec fn previous_set(past: Seq<PerformedExercise>, name: Seq<char>, i: int) -> Option<
    SetEntry,
> {
    match first_named(past, name) {
        Some(e) => if 0 <= i < e.sets@.len() {
            Some(e.sets@[i])
        } else {
            None
        },
        None => None,
    }
}

/// The set to perform for a planned set: reps, weight and rest as last
/// performed where they were, else as planned (no reps planned: 0); not yet
/// completed; a warm-up as planned.
pub open spec fn prefilled_set(plan: PlannedSet, prev: Option<SetEntry>) -> SetEntry {
    SetEntry {
        reps: match prev {
            Some(p) => p.reps,
            None => match plan.target_reps {
                Some(r) => r,
                None => 0,
            },
        },
        weight: match prev {
            Some(p) => match p.weight {
                Some(w) => Some(w),
                None => plan.target_weight,
            },
            None => plan.target_weight,
        },
        completed: false,
        rest_seconds: match prev {
            Some(p) => match p.rest_seconds {
                Some(s) => Some(s),
                None => plan.target_rest_seconds,
            },
            None => plan.target_rest_seconds,
        },
        is_warmup: plan.is_warmup,
    }
}

/// Whether `e` is the exercise to perform for the planned `p`, given the
/// exercises performed before (most recent first).
pub open spec fn performed_from(p: PlannedExercise, past: Seq<PerformedExercise>, e: PerformedExercise) -> bool {
    &&& e.name == p.name
    &&& e.sets@.len() == p.sets@.len()
    &&& forall|i: int|
        0 <= i < p.sets@.len() ==> #[trigger] e.sets@[i] == prefilled_set(
            p.sets@[i],
            previous_set(past, p.name@, i),
        )
}

/// Each set of a workout started from a plan takes its reps, weight and rest
/// from the set at the same place in the latest performance of the exercise
/// where that set noted them, else from the plan (no planned reps: 0); it is
/// not yet completed, and a warm-up as planned.
pub proof fn law_prefill_follows_last_performance(
    plan: Seq<PlannedExercise>,
    past: Seq<PerformedExercise>,
    done: Seq<PerformedExercise>,
    j: int,
    i: int,
)
    requires
        planned_from(plan, past, done),
        0 <= j < plan.len(),
        0 <= i < plan[j].sets@.len(),
    ensures
        ({
            let set = done[j].sets@[i];
            let p = plan[j].sets@[i];
            &&& done[j].name == plan[j].name
            &&& !set.completed
            &&& set.is_warmup == p.is_warmup
            &&& match previous_set(past, plan[j].name@, i) {
                Some(last) => {
                    &&& set.reps == last.reps
                    &&& (last.weight is Some ==> set.weight == last.weight)
                    &&& (last.weight is None ==> set.weight == p.target_weight)
                    &&& (last.rest_seconds is Some ==> set.rest_seconds == last.rest_seconds)
                    &&& (last.rest_seconds is None ==> set.rest_seconds == p.target_rest_seconds)
                },
                None => {
                    &&& (p.target_reps matches Some(r) ==> set.reps == r)
                    &&& (p.target_reps is None ==> set.reps == 0)
                    &&& set.weight == p.target_weight
                    &&& set.rest_seconds == p.target_rest_seconds
                },
            }
        }),
{
    assert(performed_from(plan[j], past, done[j]));
}

/// Whether `done` are the exercises to perform for the plan `plan`, given the
/// exercises performed before.
pub open spec fn planned_from(
    plan: Seq<PlannedExercise>,
    past: Seq<PerformedExercise>,
    done: Seq<PerformedExercise>,
) -> bool {
    &&& done.len() == plan.len()
    &&& forall|j: int| 0 <= j < plan.len() ==> performed_from(#[trigger] plan[j], past, done[j])
}

/// The exercises a list of references points at.
pub open spec fn exercises_of(s: Seq<&PerformedExercise>) -> Seq<PerformedExercise> {
    s.map_values(|e: &PerformedExercise| *e)
}

/// All sets of the exercises, exercise after exercise.
pub open spec fn all_sets(exs: Seq<PerformedExercise>) -> Seq<SetEntry>
    decreases exs.len(),
{
    if exs.len() == 0 {
        Seq::empty()
    } else {
        all_sets(exs.drop_last()) + exs.last().sets@
    }
}

/// The completed sets that are not warm-ups, in order.
pub open spec fn working(s: Seq<SetEntry>) -> Seq<SetEntry>
    decreases s.len(),
{
    if s.len() == 0 {
        Seq::empty()
    } else {
        let rest = working(s.drop_last());
        if s.last().completed && !s.last().is_warmup {
            rest.push(s.last())
        } else {
            rest
        }
    }
}

/// How many sets are completed.
pub open spec fn completed_count(s: Seq<SetEntry>) -> nat
    decreases s.len(),
{
    if s.len() == 0 {
        0
    } else {
        completed_count(s.drop_last()) + if s.last().completed {
            1nat
        } else {
            0nat
        }
    }
}

proof fn lemma_first_named_push(s: Seq<PerformedExercise>, x: PerformedExercise, n: Seq<char>)
    ensures
        first_named(s.push(x), n) == match first_named(s, n) {
            Some(e) => Some(e),
            None => if x.name@ == n {
                Some(x)
            } else {
                None
            },
        },
    decreases s.len(),
{
    if s.len() > 0 {
        assert(s.push(x).drop_first() =~= s.drop_first().push(x));
        assert(s.push(x)[0] == s[0]);
        lemma_first_named_push(s.drop_first(), x, n);
    } else {
        assert(s.push(x).drop_first() =~= Seq::<PerformedExercise>::empty());
        assert(s.push(x)[0] == x);
        assert(first_named(Seq::<PerformedExercise>::empty(), n) is None);
    }
}

/// `first_named` finds the exercise at the first index with that name.
proof fn lemma_first_named_index(s: Seq<PerformedExercise>, n: Seq<char>)
    ensures
        first_named(s, n) is None <==> forall|k: int| 0 <= k < s.len() ==> #[trigger] s[k].name@
            != n,
        forall|k: int|
            0 <= k < s.len() && #[trigger] s[k].name@ == n && (forall|m: int|
                0 <= m < k ==> s[m].name@ != n) ==> first_named(s, n) == Some(s[k]),
    decreases s.len(),
{
    if s.len() > 0 {
        lemma_first_named_index(s.drop_first(), n);
        let t = s.drop_first();
        assert forall|k: int|
            0 <= k < s.len() && #[trigger] s[k].name@ == n && (forall|m: int|
                0 <= m < k ==> s[m].name@ != n) implies first_named(s, n) == Some(s[k]) by {
            if k > 0 {
                assert(t[k - 1] == s[k]);
                assert forall|m: int| 0 <= m < k - 1 implies t[m].name@ != n by {
                    assert(t[m] == s[m + 1]);
                }
            }
        }
        if first_named(s, n) is None {
            assert forall|k: int| 0 <= k < s.len() implies #[trigger] s[k].name@ != n by {
                if k > 0 {
                    assert(t[k - 1] == s[k]);
                }
            }
        }
        if forall|k: int| 0 <= k < s.len() ==> #[trigger] s[k].name@ != n {
            assert forall|k: int| 0 <= k < t.len() implies #[trigger] t[k].name@ != n by {
                assert(t[k] == s[k + 1]);
            }
        }
    }
}

/// The first exercise named `name` in `list`, if any.
fn find_by_name<'a>(list: &Vec<&'a PerformedExercise>, name: &String) -> (r: Option<
    &'a PerformedExercise,
>)
    ensures
        r is None <==> first_named(exercises_of(list@), name@) is None,
        r matches Some(e) ==> first_named(exercises_of(list@), name@) == Some(*e),
{
    let ghost s = exercises_of(list@);
    proof {
        lemma_first_named_index(s, name@);
    }
    let mut k: usize = 0;
    while k < list.len()
        invariant
            k <= list@.len(),
            s == exercises_of(list@),
            forall|m: int| 0 <= m < k ==> #[trigger] s[m].name@ != name@,
        decreases list@.len() - k,
    {
        let same = list[k].name == *name;
        assert(same == (list@[k as int].name@ == name@));
        if same {
            assert(s[k as int] == *list@[k as int]);
            assert(s[k as int].name@ == name@);
            proof {
                lemma_first_named_index(s, name@);
            }
            return Some(list[k]);
        }
        k = k + 1;
    }
    proof {
        lemma_first_named_index(s, name@);
    }
    None
}

/// For each exercise name in the workouts of `history`, its first occurrence,
/// in the order of first occurrence; no name occurs twice.
fn last_performed_by_name(history: &[Echo]) -> (r: Vec<&PerformedExercise>)
    ensures
        forall|n: Seq<char>| #[trigger]
            first_named(exercises_of(r@), n) == first_named(workout_exercises(history@), n),
        forall|a: int, b: int|
            0 <= a < b < r@.len() ==> (#[trigger] r@[a]).name@ != (#[trigger] r@[b]).name@,
{
    let mut r: Vec<&PerformedExercise> = Vec::new();
    let mut i: usize = 0;
    while i < history.len()
        invariant
            i <= history@.len(),
            forall|n: Seq<char>| #[trigger]
                first_named(exercises_of(r@), n) == first_named(
                    workout_exercises(history@.take(i as int)),
                    n,
                ),
            forall|a: int, b: int|
                0 <= a < b < r@.len() ==> (#[trigger] r@[a]).name@ != (#[trigger] r@[b]).name@,
        decreases history@.len() - i,
    {
        let ghost done = workout_exercises(history@.take(i as int));
        proof {
            assert(history@.take(i as int + 1).drop_last() =~= history@.take(i as int));
        }
        match history[i].as_workout() {
            Some(workout) => {
                let mut j: usize = 0;
                while j < workout.exercises.len()
                    invariant
                        j <= workout.exercises@.len(),
                        forall|n: Seq<char>| #[trigger]
                            first_named(exercises_of(r@), n) == first_named(
                                done + workout.exercises@.take(j as int),
                                n,
                            ),
                        forall|a: int, b: int|
                            0 <= a < b < r@.len() ==> (#[trigger] r@[a]).name@ != (
                            #[trigger] r@[b]).name@,
                    decreases workout.exercises@.len() - j,
                {
                    let exercise = &workout.exercises[j];
                    let ghost before = exercises_of(r@);
                    let ghost seen = done + workout.exercises@.take(j as int);
                    proof {
                        assert(done + workout.exercises@.take(j as int + 1) =~= seen.push(
                            *exercise,
                        ));
                        assert forall|n: Seq<char>| #[trigger]
                            first_named(seen.push(*exercise), n) == match first_named(seen, n) {
                                Some(e) => Some(e),
                                None => if exercise.name@ == n {
                                    Some(*exercise)
                                } else {
                                    None
                                },
                            } by {
                            lemma_first_named_push(seen, *exercise, n);
                        }
                    }
                    if find_by_name(&r, &exercise.name).is_none() {
                        proof {
                            lemma_first_named_index(before, exercise.name@);
                            assert forall|n: Seq<char>| #[trigger]
                                first_named(before.push(*exercise), n) == match first_named(
                                    before,
                                    n,
                                ) {
                                    Some(e) => Some(e),
                                    None => if exercise.name@ == n {
                                        Some(*exercise)
                                    } else {
                                        None
                                    },
                                } by {
                                lemma_first_named_push(before, *exercise, n);
                            }
                            assert(exercises_of(r@.push(exercise)) =~= before.push(*exercise));
                            assert forall|a: int| 0 <= a < r@.len() implies (
                            #[trigger] r@[a]).name@ != exercise.name@ by {
                                assert(before[a] == *r@[a]);
                            }
                        }
                        r.push(exercise);
                    } else {
                        proof {
                            assert forall|n: Seq<char>| #[trigger]
                                first_named(exercises_of(r@), n) == first_named(
                                    seen.push(*exercise),
                                    n,
                                ) by {
                                if n == exercise.name@ {
                                    assert(first_named(seen, n) is Some);
                                }
                            }
                        }
                    }
                    j = j + 1;
                }
                proof {
                    assert(workout.exercises@.take(j as int) =~= workout.exercises@);
                    assert(history@[i as int].content == EchoContent::WorkoutEcho(*workout));
                }
            },
            None => {
                proof {
                    assert(done + Seq::<PerformedExercise>::empty() =~= done);
                }
            },
        }
        i = i + 1;
    }
    assert(history@.take(i as int) =~= history@);
    r
}

/// The set to perform for `plan`, given the set performed last time.
fn prefill(plan: PlannedSet, prev: Option<SetEntry>) -> (r: SetEntry)
    ensures
        r == prefilled_set(plan, prev),
{
    match prev {
        Some(p) => SetEntry {
            reps: p.reps,
            weight: match p.weight {
                Some(w) => Some(w),
                None => plan.target_weight,
            },
            completed: false,
            rest_seconds: match p.rest_seconds {
                Some(s) => Some(s),
                None => plan.target_rest_seconds,
            },
            is_warmup: plan.is_warmup,
        },
        None => SetEntry {
            reps: match plan.target_reps {
                Some(r) => r,
                None => 0,
            },
            weight: plan.target_weight,
            completed: false,
            rest_seconds: plan.target_rest_seconds,
            is_warmup: plan.is_warmup,
        },
    }
}

impl WorkoutData {
    /// A workout with nothing in it, from no template.
    pub open spec fn is_empty_workout(self) -> bool {
        &&& self.template_id is None
        &&& self.exercises@.len() == 0
        &&& self.duration_minutes is None
        &&& self.notes is None
        &&& self.perceived_effort is None
    }

    /// A freeform workout: no template, no exercises, nothing noted.
    pub fn new() -> (r: WorkoutData)
        ensures
            r.is_empty_workout(),
    {
        WorkoutData {
            template_id: None,
            exercises: Vec::new(),
            duration_minutes: None,
            notes: None,
            perceived_effort: None,
        }
    }

    /// A workout following `template`: its exercises in order, each set
    /// prefilled from the set at the same place in the most recent performance
    /// of the same exercise in `history` (which is newest first), else from
    /// the plan.
    pub fn from_template(template: &WorkoutTemplate, history: &[Echo]) -> (r: WorkoutData)
        ensures
            r.template_id == Some(template.id),
            r.duration_minutes is None,
            r.notes is None,
            r.perceived_effort is None,
            planned_from(template.exercises@, workout_exercises(history@), r.exercises@),
    {
        let last_by_name = last_performed_by_name(history);
        let ghost past = workout_exercises(history@);
        let mut exercises: Vec<PerformedExercise> = Vec::new();
        let mut j: usize = 0;
        while j < template.exercises.len()
            invariant
                j <= template.exercises@.len(),
                exercises@.len() == j,
                forall|n: Seq<char>| #[trigger]
                    first_named(exercises_of(last_by_name@), n) == first_named(past, n),
                forall|k: int|
                    0 <= k < j ==> performed_from(
                        #[trigger] template.exercises@[k],
                        past,
                        exercises@[k],
                    ),
            decreases template.exercises@.len() - j,
        {
            let planned = &template.exercises[j];
            let previous = find_by_name(&last_by_name, &planned.name);
            let mut sets: Vec<SetEntry> = Vec::new();
            let mut index: usize = 0;
            while index < planned.sets.len()
                invariant
                    index <= planned.sets@.len(),
                    sets@.len() == index,
                    previous is None <==> first_named(past, planned.name@) is None,
                    previous matches Some(e) ==> first_named(past, planned.name@) == Some(*e),
                    forall|i: int|
                        0 <= i < index ==> #[trigger] sets@[i] == prefilled_set(
                            planned.sets@[i],
                            previous_set(past, planned.name@, i),
                        ),
                decreases planned.sets@.len() - index,
            {
                let previous_set: Option<SetEntry> = match previous {
                    Some(exercise) => if index < exercise.sets.len() {
                        Some(exercise.sets[index])
                    } else {
                        None
                    },
                    None => None,
                };
                sets.push(prefill(planned.sets[index], previous_set));
                index = index + 1;
            }
            let performed = PerformedExercise { name: planned.name.clone(), sets };
            exercises.push(performed);
            j = j + 1;
        }
        WorkoutData {
            template_id: Some(template.id),
            exercises,
            duration_minutes: None,
            notes: None,
            perceived_effort: None,
        }
    }

    /// Appends an exercise with no sets.
    pub fn add_exercise(&mut self, name: String)
        ensures
            final(self).exercises@.len() == old(self).exercises@.len() + 1,
            final(self).exercises@.drop_last() == old(self).exercises@,
            final(self).exercises@.last().name == name,
            final(self).exercises@.last().sets@.len() == 0,
            (*final(self) == WorkoutData { exercises: final(self).exercises, ..*old(self) }),
    {
        self.exercises.push(PerformedExercise { name, sets: Vec::new() });
        assert(self.exercises@.drop_last() =~= old(self).exercises@);
    }

    /// Removes exercise `index`, if there is one.
    pub fn remove_exercise(&mut self, index: usize)
        ensures
            index < old(self).exercises@.len() ==> final(self).exercises@ == old(self).exercises@.remove(index as int),
            index >= old(self).exercises@.len() ==> final(self).exercises@ == old(self).exercises@,
            (*final(self) == WorkoutData { exercises: final(self).exercises, ..*old(self) }),
    {
        if index < self.exercises.len() {
            self.exercises.remove(index);
        }
    }

    /// Appends `set` to exercise `exercise_index`, if there is one.
    pub fn log_set(&mut self, exercise_index: usize, set: SetEntry)
        ensures
            final(self).exercises@.len() == old(self).exercises@.len(),
            forall|k: int|
                0 <= k < old(self).exercises@.len() && k != exercise_index ==> #[trigger] final(self).exercises@[k] == old(self).exercises@[k],
            exercise_index < old(self).exercises@.len() ==> {
                &&& final(self).exercises@[exercise_index as int].name == old(self).exercises@[exercise_index as int].name
                &&& final(self).exercises@[exercise_index as int].sets@ == old(self).exercises@[exercise_index as int].sets@.push(set)
            },
            (*final(self) == WorkoutData { exercises: final(self).exercises, ..*old(self) }),
    {
        if exercise_index < self.exercises.len() {
            let exercise = &mut self.exercises[exercise_index];
            exercise.sets.push(set);
        }
    }

    /// Whether the workout was made without a template.
    pub fn is_freeform(&self) -> (r: bool)
        ensures
            r == self.template_id is None,
    {
        self.template_id.is_none()
    }

    /// The sets that count for the workout: completed and not warm-ups, in
    /// order.
    pub fn working_sets(&self) -> (r: Vec<SetEntry>)
        ensures
            r@ == working(all_sets(self.exercises@)),
    {
        let mut r: Vec<SetEntry> = Vec::new();
        let mut i: usize = 0;
        while i < self.exercises.len()
            invariant
                i <= self.exercises@.len(),
                r@ == working(all_sets(self.exercises@.take(i as int))),
            decreases self.exercises@.len() - i,
        {
            let ghost head = all_sets(self.exercises@.take(i as int));
            let sets = &self.exercises[i].sets;
            let mut j: usize = 0;
            while j < sets.len()
                invariant
                    j <= sets@.len(),
                    r@ == working(head + sets@.take(j as int)),
                decreases sets@.len() - j,
            {
                assert((head + sets@.take(j as int + 1)).drop_last() =~= head + sets@.take(
                    j as int,
                ));
                assert((head + sets@.take(j as int + 1)).last() == sets@[j as int]);
                let set = sets[j];
                if set.completed && !set.is_warmup {
                    r.push(set);
                }
                j = j + 1;
            }
            proof {
                assert(self.exercises@.take(i as int + 1).drop_last() =~= self.exercises@.take(
                    i as int,
                ));
                assert(sets@.take(j as int) =~= sets@);
            }
            i = i + 1;
        }
        assert(self.exercises@.take(i as int) =~= self.exercises@);
        r
    }

    /// How many sets the workout has.
    pub fn total_sets(&self) -> (r: usize)
        requires
            all_sets(self.exercises@).len() <= usize::MAX,
        ensures
            r == all_sets(self.exercises@).len(),
    {
        let mut total: usize = 0;
        let mut i: usize = 0;
        while i < self.exercises.len()
            invariant
                i <= self.exercises@.len(),
                total == all_sets(self.exercises@.take(i as int)).len(),
                all_sets(self.exercises@).len() <= usize::MAX,
            decreases self.exercises@.len() - i,
        {
            proof {
                assert(self.exercises@.take(i as int + 1).drop_last() =~= self.exercises@.take(
                    i as int,
                ));
                lemma_all_sets_prefix(self.exercises@, i as int + 1);
            }
            total = total + self.exercises[i].sets.len();
            i = i + 1;
        }
        assert(self.exercises@.take(i as int) =~= self.exercises@);
        total
    }

    /// How many sets of the workout are completed.
    pub fn completed_sets(&self) -> (r: usize)
        requires
            all_sets(self.exercises@).len() <= usize::MAX,
        ensures
            r == completed_count(all_sets(self.exercises@)),
    {
        let mut count: usize = 0;
        let mut i: usize = 0;
        while i < self.exercises.len()
            invariant
                i <= self.exercises@.len(),
                count == completed_count(all_sets(self.exercises@.take(i as int))),
                all_sets(self.exercises@).len() <= usize::MAX,
            decreases self.exercises@.len() - i,
        {
            let ghost head = all_sets(self.exercises@.take(i as int));
            proof {
                assert(self.exercises@.take(i as int + 1).drop_last() =~= self.exercises@.take(
                    i as int,
                ));
                lemma_all_sets_prefix(self.exercises@, i as int + 1);
            }
            let sets = &self.exercises[i].sets;
            let mut j: usize = 0;
            while j < sets.len()
                invariant
                    j <= sets@.len(),
                    count == completed_count(head + sets@.take(j as int)),
                    head.len() + sets@.len() <= usize::MAX,
                decreases sets@.len() - j,
            {
                assert((head + sets@.take(j as int + 1)).drop_last() =~= head + sets@.take(
                    j as int,
                ));
                assert((head + sets@.take(j as int + 1)).last() == sets@[j as int]);
                proof {
                    law_set_counts_bounded(head + sets@.take(j as int));
                }
                if sets[j].completed {
                    count = count + 1;
                }
                j = j + 1;
            }
            proof {
                assert(sets@.take(j as int) =~= sets@);
            }
            i = i + 1;
        }
        assert(self.exercises@.take(i as int) =~= self.exercises@);
        count
    }
}

impl Default for WorkoutData {
    fn default() -> (r: WorkoutData)
        ensures
            r.is_empty_workout(),
    {
        WorkoutData::new()
    }
}

proof fn lemma_all_sets_prefix(exs: Seq<PerformedExercise>, k: int)
    requires
        0 <= k <= exs.len(),
    ensures
        all_sets(exs.take(k)).len() <= all_sets(exs).len(),
    decreases exs.len(),
{
    if k < exs.len() {
        assert(exs.drop_last().take(k) =~= exs.take(k));
        lemma_all_sets_prefix(exs.drop_last(), k);
    } else {
        assert(exs.take(k) =~= exs);
    }
}

/// The sets that count are among the completed ones, and those among all.
pub proof fn law_set_counts_bounded(s: Seq<SetEntry>)
    ensures
        working(s).len() <= completed_count(s),
        completed_count(s) <= s.len(),
    decreases s.len(),
{
    if s.len() > 0 {
        law_set_counts_bounded(s.drop_last());
    }
}

impl PlannedExercise {
    /// An exercise with no planned sets, notes or superset group.
    pub fn new(name: String) -> (r: PlannedExercise)
        ensures
            r.name == name,
            r.sets@.len() == 0,
            r.notes is None,
            r.superset_group is None,
    {
        PlannedExercise { name, sets: Vec::new(), notes: None, superset_group: None }
    }

    /// Appends a planned set.
    pub fn add_set(&mut self, set: PlannedSet)
        ensures
            final(self).sets@ == old(self).sets@.push(set),
            (*final(self) == PlannedExercise { sets: final(self).sets, ..*old(self) }),
    {
        self.sets.push(set);
    }

    /// Removes planned set `index`, if there is one.
    pub fn remove_set(&mut self, index: usize)
        ensures
            index < old(self).sets@.len() ==> final(self).sets@ == old(self).sets@.remove(
                index as int,
            ),
            index >= old(self).sets@.len() ==> final(self).sets@ == old(self).sets@,
            (*final(self) == PlannedExercise { sets: final(self).sets, ..*old(self) }),
    {
        if index < self.sets.len() {
            self.sets.remove(index);
        }
    }
}

impl WorkoutProgram {
    /// A new program with a fresh id.
    pub fn new(name: String, notes: Option<String>) -> (r: WorkoutProgram)
        ensures
            r.name == name,
            r.notes == notes,
            is_random_uuid(r.id.0),
    {
        WorkoutProgram { id: Id::new_v4(), name, notes }
    }
}

/// The exercises after moving the one at `from` to position `to` (unchanged
/// unless both are positions of the list).
pub open spec fn moved<A>(s: Seq<A>, from: int, to: int) -> Seq<A> {
    if 0 <= from < s.len() && 0 <= to < s.len() {
        s.remove(from).insert(to, s[from])
    } else {
        s
    }
}

/// Moving an exercise rearranges the list: nothing is lost or added, and the
/// moved one lands at its new position.
pub proof fn law_move_rearranges<A>(s: Seq<A>, from: int, to: int)
    ensures
        moved(s, from, to).len() == s.len(),
        moved(s, from, to).to_multiset() == s.to_multiset(),
        0 <= from < s.len() && 0 <= to < s.len() ==> moved(s, from, to)[to] == s[from],
{
    broadcast use vstd::seq_lib::to_multiset_remove, vstd::seq_lib::to_multiset_insert,
        vstd::seq_lib::to_multiset_contains, vstd::multiset::group_multiset_axioms;

    if 0 <= from < s.len() && 0 <= to < s.len() {
        assert(s.remove(from).to_multiset() == s.to_multiset().remove(s[from]));
        assert(s.to_multiset().remove(s[from]).insert(s[from]) =~= s.to_multiset());
    }
}

impl WorkoutTemplate {
    /// A new, empty template with a fresh id.
    pub fn new(name: String, program_id: Option<Id>, sort_order: i32) -> (r: WorkoutTemplate)
        ensures
            r.name == name,
            r.program_id == program_id,
            r.sort_order == sort_order,
            r.exercises@.len() == 0,
            is_random_uuid(r.id.0),
    {
        WorkoutTemplate { id: Id::new_v4(), name, program_id, sort_order, exercises: Vec::new() }
    }

    /// Appends a planned exercise.
    pub fn add_exercise(&mut self, exercise: PlannedExercise)
        ensures
            final(self).exercises@ == old(self).exercises@.push(exercise),
            (*final(self) == WorkoutTemplate { exercises: final(self).exercises, ..*old(self) }),
    {
        self.exercises.push(exercise);
    }

    /// Removes exercise `index`, if there is one.
    pub fn remove_exercise(&mut self, index: usize)
        ensures
            index < old(self).exercises@.len() ==> final(self).exercises@ == old(self).exercises@.remove(index as int),
            index >= old(self).exercises@.len() ==> final(self).exercises@ == old(self).exercises@,
            (*final(self) == WorkoutTemplate { exercises: final(self).exercises, ..*old(self) }),
    {
        if index < self.exercises.len() {
            self.exercises.remove(index);
        }
    }

    /// Moves exercise `from` to position `to`, if both are positions of the list.
    pub fn move_exercise(&mut self, from: usize, to: usize)
        ensures
            final(self).exercises@ == moved(old(self).exercises@, from as int, to as int),
            (*final(self) == WorkoutTemplate { exercises: final(self).exercises, ..*old(self) }),
    {
        if from < self.exercises.len() && to < self.exercises.len() {
            let item = self.exercises.remove(from);
            self.exercises.insert(to, item);
        }
    }
}

impl Echo {
    /// A new echo holding an empty, freeform workout.
    pub fn new_workout(day: Date, title: String) -> (r: Echo)
        ensures
            r.is_fresh(day, title, r.content),
            r.content matches EchoContent::WorkoutEcho(w) && w.is_empty_workout(),
    {
        Echo::new(day, title, EchoContent::WorkoutEcho(WorkoutData::new()))
    }

    /// A new echo holding a workout that follows `template`, prefilled from
    /// `history` (newest first).
    pub fn new_workout_from_template(
        day: Date,
        title: String,
        template: &WorkoutTemplate,
        history: &[Echo],
    ) -> (r: Echo)
        ensures
            r.is_fresh(day, title, r.content),
            r.content matches EchoContent::WorkoutEcho(w) && {
                &&& w.template_id == Some(template.id)
                &&& w.duration_minutes is None
                &&& w.notes is None
                &&& w.perceived_effort is None
                &&& planned_from(template.exercises@, workout_exercises(history@), w.exercises@)
            },
    {
        Echo::new(
            day,
            title,
            EchoContent::WorkoutEcho(WorkoutData::from_template(template, history)),
        )
    }

    /// The workout an echo holds, if it is one.
    pub fn as_workout(&self) -> (r: Option<&WorkoutData>)
        ensures
            r is Some <==> self.content is WorkoutEcho,
            r matches Some(w) ==> self.content == EchoContent::WorkoutEcho(*w),
    {
        match &self.content {
            EchoContent::WorkoutEcho(data) => Some(data),
            _ => None,
        }
    }

    /// The workout an echo holds, to change in place, if it is one.
    pub fn as_workout_mut(&mut self) -> (r: Option<&mut WorkoutData>)
        ensures
            r is Some <==> old(self).content is WorkoutEcho,
            r matches Some(w) ==> old(self).content == EchoContent::WorkoutEcho(*w) && (
            *final(self) == Echo { content: EchoContent::WorkoutEcho(*final(w)), ..*old(self) }),
            r is None ==> *final(self) == *old(self),
    {
        match &mut self.content {
            EchoContent::WorkoutEcho(data) => Some(data),
            _ => None,
        }
    }
}

} // verus!
