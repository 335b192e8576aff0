use saga::calendar::{Date, LocalDateTime};
use saga::model::{
    Echo, EchoContent, PerformedExercise, PlainData, PlannedExercise, PlannedSet, SetEntry,
    WorkoutData, WorkoutProgram, WorkoutTemplate,
};

fn today() -> Date {
    LocalDateTime::now().date_naive()
}

fn ymd(y: i32, m: u32, d: u32) -> Date {
    Date::from_ymd_opt(y, m, d).unwrap()
}

/// A weight as the library stores it: the bits of an `f32`.
fn w(kg: f32) -> Option<u32> {
    Some(kg.to_bits())
}

/// A stored weight as kilograms.
fn kg(weight: Option<u32>) -> Option<f32> {
    weight.map(f32::from_bits)
}

/// Reps times weight over the working sets, as the journal's statistics
/// compute a workout's volume.
fn total_volume(workout: &WorkoutData) -> f32 {
    workout
        .working_sets()
        .iter()
        .map(|set| set.reps as f32 * set.weight.map(f32::from_bits).unwrap_or(0.0))
        .sum()
}

fn planned(reps: Option<u32>, weight: Option<u32>, rest: Option<u32>) -> PlannedSet {
    PlannedSet { target_reps: reps, target_weight: weight, target_rest_seconds: rest, is_warmup: false }
}

fn push_day_template() -> WorkoutTemplate {
    let mut bench = PlannedExercise::new("Bench".to_string());
    for _ in 0..3 {
        bench.add_set(planned(Some(8), w(60.0), Some(120)));
    }

    let mut template = WorkoutTemplate::new("Push Day".to_string(), None, 0);
    template.add_exercise(bench);
    template
}

fn check_workout_echo() {
    let echo = Echo::new(
        today(),
        "Push Day".to_string(),
        EchoContent::WorkoutEcho(WorkoutData {
            template_id: None,
            exercises: vec![PerformedExercise {
                name: "Bench Press".to_string(),
                sets: vec![SetEntry {
                    reps: 8,
                    weight: w(80.0),
                    completed: true,
                    rest_seconds: Some(90),
                    is_warmup: false,
                }],
            }],
            duration_minutes: Some(60),
            notes: Some("Felt strong.".to_string()),
            perceived_effort: Some(7),
        }),
    );

    assert_eq!(echo.content_type_name(), "Workout Echo");
    println!("{}", echo.describe());
}

fn check_workout_program_new() {
    let program = WorkoutProgram::new("Push/Pull/Legs".to_string(), Some("6-day split".to_string()));
    assert_eq!(program.name, "Push/Pull/Legs");
    assert_eq!(program.notes.as_deref(), Some("6-day split"));
}

fn check_planned_exercise_build() {
    let mut bench = PlannedExercise::new("Bench Press".to_string());
    assert!(bench.sets.is_empty());

    bench.add_set(planned(Some(8), w(60.0), Some(120)));
    bench.add_set(planned(Some(8), w(60.0), Some(120)));
    assert_eq!(bench.sets.len(), 2);

    bench.remove_set(5);
    assert_eq!(bench.sets.len(), 2);

    bench.remove_set(0);
    assert_eq!(bench.sets.len(), 1);
}

fn check_workout_template_build() {
    let mut template = WorkoutTemplate::new("Push Day".to_string(), None, 0);
    assert!(template.exercises.is_empty());
    assert!(template.program_id.is_none());

    template.add_exercise(PlannedExercise::new("Bench".to_string()));
    template.add_exercise(PlannedExercise::new("Overhead Press".to_string()));
    template.add_exercise(PlannedExercise::new("Dips".to_string()));
    assert_eq!(template.exercises.len(), 3);

    template.remove_exercise(10);
    assert_eq!(template.exercises.len(), 3);

    template.move_exercise(0, 2);
    assert_eq!(template.exercises[0].name, "Overhead Press");
    assert_eq!(template.exercises[2].name, "Bench");

    template.remove_exercise(1);
    assert_eq!(template.exercises.len(), 2);
}

fn check_workout_freeform_new() {
    let echo = Echo::new_workout(ymd(2026, 6, 3), "Freeform lift".to_string());
    let workout = echo.as_workout().unwrap();
    assert!(workout.is_freeform());
    assert!(workout.exercises.is_empty());
    assert!(workout.template_id.is_none());
}

fn check_from_template_empty_history_uses_plan() {
    let template = push_day_template();
    let workout = WorkoutData::from_template(&template, &[]);

    assert_eq!(workout.template_id, Some(template.id));
    assert!(!workout.is_freeform());
    assert_eq!(workout.exercises.len(), 1);

    let bench = &workout.exercises[0];
    assert_eq!(bench.name, "Bench");
    assert_eq!(bench.sets.len(), 3);
    for set in &bench.sets {
        assert_eq!(kg(set.weight), Some(60.0));
        assert_eq!(set.reps, 8);
        assert_eq!(set.rest_seconds, Some(120));
        assert!(!set.completed);
    }
}

fn check_from_template_no_plan_weight_is_blank() {
    let mut squat = PlannedExercise::new("Squat".to_string());
    squat.add_set(planned(None, None, None));
    let mut template = WorkoutTemplate::new("Leg Day".to_string(), None, 0);
    template.add_exercise(squat);

    let workout = WorkoutData::from_template(&template, &[]);
    let set = &workout.exercises[0].sets[0];
    assert_eq!(set.weight, None);
    assert_eq!(set.reps, 0);
    assert_eq!(set.rest_seconds, None);
}

fn check_from_template_uses_history_ramp() {
    let mut last = Echo::new_workout(ymd(2026, 6, 1), "Last Push".to_string());
    {
        let workout = last.as_workout_mut().unwrap();
        workout.add_exercise("Bench".to_string());
        workout.log_set(
            0,
            SetEntry { reps: 5, weight: w(60.0), completed: true, rest_seconds: Some(90), is_warmup: true },
        );
        workout.log_set(
            0,
            SetEntry { reps: 5, weight: w(100.0), completed: true, rest_seconds: Some(120), is_warmup: false },
        );
        workout.log_set(
            0,
            SetEntry { reps: 5, weight: w(140.0), completed: true, rest_seconds: Some(180), is_warmup: false },
        );
    }

    let history = vec![last];
    let template = push_day_template();
    let workout = WorkoutData::from_template(&template, &history);

    let bench = &workout.exercises[0];
    assert_eq!(kg(bench.sets[0].weight), Some(60.0));
    assert_eq!(kg(bench.sets[1].weight), Some(100.0));
    assert_eq!(kg(bench.sets[2].weight), Some(140.0));
    assert_eq!(bench.sets[1].reps, 5);
}

fn check_from_template_history_shorter_than_plan() {
    let mut last = Echo::new_workout(ymd(2026, 6, 1), "Last".to_string());
    {
        let workout = last.as_workout_mut().unwrap();
        workout.add_exercise("Bench".to_string());
        workout.log_set(
            0,
            SetEntry { reps: 3, weight: w(100.0), completed: true, rest_seconds: None, is_warmup: false },
        );
    }

    let history = vec![last];
    let template = push_day_template();
    let workout = WorkoutData::from_template(&template, &history);

    let bench = &workout.exercises[0];
    assert_eq!(kg(bench.sets[0].weight), Some(100.0));
    assert_eq!(kg(bench.sets[1].weight), Some(60.0));
    assert_eq!(kg(bench.sets[2].weight), Some(60.0));
}

fn check_from_template_independence() {
    let template = push_day_template();
    let mut workout = WorkoutData::from_template(&template, &[]);

    workout.add_exercise("Bonus Curls".to_string());
    workout.exercises[0].sets[0].weight = w(999.0);

    assert_eq!(template.exercises.len(), 1);
    assert_eq!(template.exercises[0].sets.len(), 3);
    assert_eq!(kg(template.exercises[0].sets[0].target_weight), Some(60.0));
}

fn check_total_volume_excludes_warmup_and_uncompleted() {
    let mut workout = WorkoutData::new();
    workout.add_exercise("Bench".to_string());
    workout.log_set(
        0,
        SetEntry { reps: 10, weight: w(40.0), completed: true, rest_seconds: None, is_warmup: true },
    );
    workout.log_set(
        0,
        SetEntry { reps: 8, weight: w(100.0), completed: true, rest_seconds: None, is_warmup: false },
    );
    workout.log_set(
        0,
        SetEntry { reps: 8, weight: w(100.0), completed: false, rest_seconds: None, is_warmup: false },
    );

    assert_eq!(total_volume(&workout), 800.0);
    assert_eq!(workout.total_sets(), 3);
    assert_eq!(workout.completed_sets(), 2);
}

fn check_as_workout_on_non_workout() {
    let echo = Echo::new(
        today(),
        "Plain".to_string(),
        EchoContent::PlainEcho(PlainData { markdown: "hi".to_string() }),
    );
    assert!(echo.as_workout().is_none());
}

#[test]
fn workout_test_workout_echo() {
    check_workout_echo();
}

#[test]
fn model_test_workout_echo() {
    check_workout_echo();
}

#[test]
fn workout_test_workout_program_new() {
    check_workout_program_new();
}

#[test]
fn model_test_workout_program_new() {
    check_workout_program_new();
}

#[test]
fn workout_test_planned_exercise_build() {
    check_planned_exercise_build();
}

#[test]
fn model_test_planned_exercise_build() {
    check_planned_exercise_build();
}

#[test]
fn workout_test_workout_template_build() {
    check_workout_template_build();
}

#[test]
fn model_test_workout_template_build() {
    check_workout_template_build();
}

#[test]
fn workout_test_workout_freeform_new() {
    check_workout_freeform_new();
}

#[test]
fn model_test_workout_freeform_new() {
    check_workout_freeform_new();
}

#[test]
fn workout_test_from_template_empty_history_uses_plan() {
    check_from_template_empty_history_uses_plan();
}

#[test]
fn model_test_from_template_empty_history_uses_plan() {
    check_from_template_empty_history_uses_plan();
}

#[test]
fn workout_test_from_template_no_plan_weight_is_blank() {
    check_from_template_no_plan_weight_is_blank();
}

#[test]
fn model_test_from_template_no_plan_weight_is_blank() {
    check_from_template_no_plan_weight_is_blank();
}

#[test]
fn workout_test_from_template_uses_history_ramp() {
    check_from_template_uses_history_ramp();
}

#[test]
fn model_test_from_template_uses_history_ramp() {
    check_from_template_uses_history_ramp();
}

#[test]
fn workout_test_from_template_history_shorter_than_plan() {
    check_from_template_history_shorter_than_plan();
}

#[test]
fn model_test_from_template_history_shorter_than_plan() {
    check_from_template_history_shorter_than_plan();
}

#[test]
fn workout_test_from_template_independence() {
    check_from_template_independence();
}

#[test]
fn model_test_from_template_independence() {
    check_from_template_independence();
}

#[test]
fn workout_test_total_volume_excludes_warmup_and_uncompleted() {
    check_total_volume_excludes_warmup_and_uncompleted();
}

#[test]
fn model_test_total_volume_excludes_warmup_and_uncompleted() {
    check_total_volume_excludes_warmup_and_uncompleted();
}

#[test]
fn workout_test_as_workout_on_non_workout() {
    check_as_workout_on_non_workout();
}

#[test]
fn model_test_as_workout_on_non_workout() {
    check_as_workout_on_non_workout();
}

#[test]
fn from_template_takes_the_latest_workout_with_the_exercise() {
    let mut older = Echo::new_workout(ymd(2026, 5, 1), "Older".to_string());
    {
        let workout = older.as_workout_mut().unwrap();
        workout.add_exercise("Bench".to_string());
        workout.log_set(
            0,
            SetEntry { reps: 2, weight: w(20.0), completed: true, rest_seconds: None, is_warmup: false },
        );
    }
    let mut newer = Echo::new_workout(ymd(2026, 5, 8), "Newer".to_string());
    {
        let workout = newer.as_workout_mut().unwrap();
        workout.add_exercise("Bench".to_string());
        workout.log_set(
            0,
            SetEntry { reps: 4, weight: w(50.0), completed: true, rest_seconds: None, is_warmup: false },
        );
    }
    let workout = WorkoutData::from_template(&push_day_template(), &[newer, older]);
    let bench = &workout.exercises[0];
    assert_eq!(kg(bench.sets[0].weight), Some(50.0));
    assert_eq!(bench.sets[0].reps, 4);
}

#[test]
fn move_exercise_out_of_range_changes_nothing() {
    let mut template = push_day_template();
    template.add_exercise(PlannedExercise::new("Dips".to_string()));
    template.move_exercise(0, 5);
    template.move_exercise(7, 0);
    assert_eq!(template.exercises[0].name, "Bench");
    assert_eq!(template.exercises[1].name, "Dips");
    template.move_exercise(1, 0);
    assert_eq!(template.exercises[0].name, "Dips");
}

#[test]
fn log_set_on_a_missing_exercise_is_ignored() {
    let mut workout = WorkoutData::default();
    workout.log_set(
        3,
        SetEntry { reps: 1, weight: None, completed: true, rest_seconds: None, is_warmup: false },
    );
    assert_eq!(workout.total_sets(), 0);
    workout.add_exercise("Row".to_string());
    workout.remove_exercise(4);
    assert_eq!(workout.exercises.len(), 1);
    workout.remove_exercise(0);
    assert!(workout.exercises.is_empty());
}

#[test]
fn new_workout_from_template_links_the_template() {
    let template = push_day_template();
    let echo = Echo::new_workout_from_template(ymd(2026, 6, 2), "Push".to_string(), &template, &[]);
    let workout = echo.as_workout().unwrap();
    assert_eq!(workout.template_id, Some(template.id));
    assert_eq!(workout.exercises[0].sets.len(), 3);
}
