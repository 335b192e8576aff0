//! The journal's records: echoes of several kinds, sections, seeds and the
//! workout programs and templates that workouts are planned with.

pub mod echo;
pub mod meditation;
pub mod section;
pub mod seed;
pub mod task;
pub mod workout;

pub use echo::{Echo, EchoContent};
pub use meditation::{mood_delta_totals, total_meditation_minutes, MeditationData};
pub use section::{find_section_by_name, next_sort_order, Section, Template};
pub use seed::{ParseSeedKindError, Seed, SeedKind};
pub use task::{
    open_tasks, overdue_tasks, tasks_by_priority, ChecklistItem, Priority, Recurrence, TaskData,
};
pub use workout::{
    PerformedExercise, PlannedExercise, PlannedSet, SetEntry, WorkoutData, WorkoutProgram,
    WorkoutTemplate,
};

use vstd::prelude::*;

verus! {

/// The name under which plain echoes are shown and stored.
pub const ECHO_TYPE_PLAIN: &'static str = "Echo";

/// The name under which meditation echoes are shown and stored.
pub const ECHO_TYPE_MEDITATION: &'static str = "Meditation Echo";

/// The name under which task echoes are shown and stored.
pub const ECHO_TYPE_TASK: &'static str = "Task Echo";

/// The name under which workout echoes are shown and stored.
pub const ECHO_TYPE_WORKOUT: &'static str = "Workout Echo";

/// The content of a plain echo: free text in markdown.
#[derive(Clone, Debug)]
pub struct PlainData {
    pub markdown: String,
}

} // verus!
