//! Workout definitions and their compilation into a flat plan.
//!
//! A definition is a tree: a run is a leaf, a repeat holds children and a
//! count. Compiling resolves each leaf once, lays the children of a repeat
//! out in order, and writes that sequence out as many times as the repeat
//! counts. The plan's totals are sums over the steps as laid out.

use vstd::prelude::*;
use crate::duration::{duration_of, parse_duration, ParseError};
use crate::pace::{pace_of, parse_pace, PaceRaw};

verus! {

/// One step of a workout definition.
#[derive(Debug)]
pub enum WorkoutStepRaw {
    /// The children, in order, `times` times over.
    Repeat { times: u8, steps: Vec<WorkoutStepRaw> },
    /// One run at a pace and a belt angle, for a duration written `MM:SS`.
    Run { name: String, duration: String, pace: PaceRaw, angle: i16 },
}

/// A workout definition.
#[derive(Debug)]
pub struct WorkoutRaw {
    pub name: String,
    pub description: String,
    pub steps: Vec<WorkoutStepRaw>,
}

/// One resolved step of a plan.
#[derive(Debug, Clone, PartialEq, Eq)]
pub struct WorkoutStep {
    pub name: String,
    /// Seconds.
    pub duration: u16,
    /// Derived from pace and duration.
    pub distance: u16,
    /// Hundredths of a kilometre per hour.
    pub pace: u16,
    pub angle: i16,
}

/// A compiled workout: the steps in the order in which they are run, and
/// their totals.
#[derive(Debug, Clone, PartialEq, Eq)]
pub struct Workout {
    pub duration: u16,
    pub distance: u16,
    pub steps: Vec<WorkoutStep>,
    pub name: String,
    pub description: String,
}

/// What a resolved step holds.
pub struct StepView {
    pub name: Seq<char>,
    pub duration: u16,
    pub distance: u16,
    pub pace: u16,
    pub angle: i16,
}

/// What a compiled workout holds.
pub struct WorkoutView {
    pub duration: u16,
    pub distance: u16,
    pub steps: Seq<StepView>,
    pub name: Seq<char>,
    pub description: Seq<char>,
}

impl View for WorkoutStep {
    type V = StepView;

    open spec fn view(&self) -> StepView {
        StepView {
            name: self.name@,
            duration: self.duration,
            distance: self.distance,
            pace: self.pace,
            angle: self.angle,
        }
    }
}

/// What each of the steps holds, in order.
pub open spec fn step_views(steps: Seq<WorkoutStep>) -> Seq<StepView> {
    Seq::new(steps.len(), |i: int| steps[i]@)
}

impl View for Workout {
    type V = WorkoutView;

    open spec fn view(&self) -> WorkoutView {
        WorkoutView {
            duration: self.duration,
            distance: self.distance,
            steps: step_views(self.steps@),
            name: self.name@,
            description: self.description@,
        }
    }
}

/// The distance covered at `pace` in `duration` seconds: their product over
/// a thousand, rounded down, and at most 65535.
pub open spec fn distance_of(pace: u16, duration: u16) -> u16 {
    if pace * duration / 1000 > u16::MAX {
        u16::MAX
    } else {
        (pace * duration / 1000) as u16
    }
}

/// `items`, `times` times over.
pub open spec fn repeated<T>(items: Seq<T>, times: nat) -> Seq<T>
    decreases times,
{
    if times == 0 {
        Seq::empty()
    } else {
        repeated(items, (times - 1) as nat) + items
    }
}

/// The step that a run resolves to. The pace is read before the duration,
/// so its error comes first.
pub open spec fn run_step(name: Seq<char>, duration: Seq<char>, pace: PaceRaw, angle: i16) -> Result<
    StepView,
    ParseError,
> {
    match pace_of(pace) {
        Err(error) => Err(error),
        Ok(speed) => match duration_of(duration) {
            Err(error) => Err(error),
            Ok(seconds) => Ok(
                StepView {
                    name,
                    duration: seconds,
                    distance: distance_of(speed, seconds),
                    pace: speed,
                    angle,
                },
            ),
        },
    }
}

/// The steps that one step of a definition compiles to: one for a run; for
/// a repeat, what its children compile to, `times` times over. A repeat
/// fails as its children do, even when it repeats them zero times.
pub open spec fn compiled_step(step: WorkoutStepRaw) -> Result<Seq<StepView>, ParseError>
    decreases step, 0nat,
{
    match step {
        WorkoutStepRaw::Run { name, duration, pace, angle } => match run_step(
            name@,
            duration@,
            pace,
            angle,
        ) {
            Ok(resolved) => Ok(seq![resolved]),
            Err(error) => Err(error),
        },
        WorkoutStepRaw::Repeat { times, steps } => match compiled_steps(steps@, steps@.len()) {
            Ok(children) => Ok(repeated(children, times as nat)),
            Err(error) => Err(error),
        },
    }
}

/// The steps that the first `count` steps of a list compile to, one after
/// the other, or the error of the first among them that fails.
pub open spec fn compiled_steps(steps: Seq<WorkoutStepRaw>, count: nat) -> Result<
    Seq<StepView>,
    ParseError,
>
    decreases steps, count,
{
    if count == 0 || count > steps.len() {
        Ok(Seq::empty())
    } else {
        match compiled_steps(steps, (count - 1) as nat) {
            Err(error) => Err(error),
            Ok(front) => match compiled_step(steps[count - 1]) {
                Err(error) => Err(error),
                Ok(back) => Ok(front + back),
            },
        }
    }
}

/// The sum of the steps' durations.
pub open spec fn sum_durations(steps: Seq<StepView>) -> int
    decreases steps.len(),
{
    if steps.len() == 0 {
        0
    } else {
        sum_durations(steps.drop_last()) + steps.last().duration
    }
}

/// The sum of the steps' distances, each as derived for its step.
pub open spec fn sum_distances(steps: Seq<StepView>) -> int
    decreases steps.len(),
{
    if steps.len() == 0 {
        0
    } else {
        sum_distances(steps.drop_last()) + steps.last().distance
    }
}

/// A sum as a 16-bit total holds it: reduced modulo 65536.
pub open spec fn wrapped(sum: int) -> u16 {
    (sum % 0x1_0000) as u16
}

/// The plan that a definition compiles to.
pub open spec fn plan_of(workout: WorkoutRaw) -> Result<WorkoutView, ParseError> {
    match compiled_steps(workout.steps@, workout.steps@.len()) {
        Err(error) => Err(error),
        Ok(steps) => Ok(
            WorkoutView {
                duration: wrapped(sum_durations(steps)),
                distance: wrapped(sum_distances(steps)),
                steps,
                name: workout.name@,
                description: workout.description@,
            },
        ),
    }
}

/// What the steps of a result hold, or its error.
pub open spec fn steps_result_view(result: Result<Vec<WorkoutStep>, ParseError>) -> Result<
    Seq<StepView>,
    ParseError,
> {
    match result {
        Ok(steps) => Ok(step_views(steps@)),
        Err(error) => Err(error),
    }
}

/// What the plan of a result holds, or its error.
pub open spec fn plan_result_view(result: Result<Workout, ParseError>) -> Result<
    WorkoutView,
    ParseError,
> {
    match result {
        Ok(plan) => Ok(plan@),
        Err(error) => Err(error),
    }
}

impl Workout {
    /// Whether the totals are those of the steps: each the sum over the
    /// steps as laid out, reduced modulo 65536.
    pub open spec fn totals_match(self) -> bool {
        &&& self.duration == wrapped(sum_durations(step_views(self.steps@)))
        &&& self.distance == wrapped(sum_distances(step_views(self.steps@)))
    }
}

/// Derives the distance covered at `pace` in `duration` seconds.
pub fn travelled(pace: u16, duration: u16) -> (distance: u16)
    ensures
        distance == distance_of(pace, duration),
{
    assert(pace * duration <= 65535 * 65535) by (nonlinear_arith)
        requires
            pace <= 65535,
            duration <= 65535,
    ;
    let exact: u32 = (pace as u32) * (duration as u32) / 1000;
    if exact > 65535 {
        65535
    } else {
        exact as u16
    }
}

fn copy_step(step: &WorkoutStep) -> (copy: WorkoutStep)
    ensures
        copy@ == step@,
{
    WorkoutStep {
        name: step.name.clone(),
        duration: step.duration,
        distance: step.distance,
        pace: step.pace,
        angle: step.angle,
    }
}

/// Appends a copy of each of `steps` to `target`.
fn append_copies(target: &mut Vec<WorkoutStep>, steps: &Vec<WorkoutStep>)
    ensures
        step_views(final(target)@) == step_views(old(target)@) + step_views(steps@),
{
    let mut at: usize = 0;
    while at < steps.len()
        invariant
            at <= steps@.len(),
            step_views(target@) == step_views(old(target)@) + step_views(steps@).take(at as int),
        decreases steps@.len() - at,
    {
        let ghost before = target@;
        let copy = copy_step(&steps[at]);
        target.push(copy);
        assert(step_views(target@) =~= step_views(before).push(steps@[at as int]@));
        assert(step_views(steps@).take(at + 1) =~= step_views(steps@).take(at as int).push(
            steps@[at as int]@,
        ));
        at += 1;
    }
    assert(step_views(steps@).take(at as int) =~= step_views(steps@));
}

/// Compiles a list of steps, one after the other.
fn compile_steps(steps: &Vec<WorkoutStepRaw>) -> (result: Result<Vec<WorkoutStep>, ParseError>)
    ensures
        steps_result_view(result) == compiled_steps(steps@, steps@.len()),
    decreases steps, 1nat,
{
    let mut flat: Vec<WorkoutStep> = Vec::new();
    let mut at: usize = 0;
    assert(step_views(flat@) =~= Seq::empty());
    while at < steps.len()
        invariant
            at <= steps@.len(),
            compiled_steps(steps@, at as nat) == Ok::<Seq<StepView>, ParseError>(step_views(flat@)),
        decreases steps@.len() - at,
    {
        let ghost before = flat@;
        match parse_workout_step(&steps[at]) {
            Err(error) => {
                proof {
                    lemma_compiled_steps_error_stays(steps@, (at + 1) as nat, steps@.len());
                }
                return Err(error);
            },
            Ok(mut part) => {
                let ghost added = part@;
                flat.append(&mut part);
                assert(step_views(flat@) =~= step_views(before) + step_views(added));
            },
        }
        at += 1;
    }
    Ok(flat)
}

/// Compiles one step of a definition into the steps of the plan.
///
/// A run gives one step: its pace and duration are read, and its distance is
/// derived from them. A repeat gives what its children compile to, one after
/// the other, `times` times over; each child is compiled once. The result is
/// the error of the first run, in the order of the definition, whose pace or
/// duration cannot be read.
pub fn parse_workout_step(step: &WorkoutStepRaw) -> (result: Result<Vec<WorkoutStep>, ParseError>)
    ensures
        steps_result_view(result) == compiled_step(*step),
    decreases step, 0nat,
{
    match step {
        WorkoutStepRaw::Repeat { times, steps } => {
            let children = match compile_steps(steps) {
                Ok(children) => children,
                Err(error) => {
                    return Err(error);
                },
            };
            let mut result: Vec<WorkoutStep> = Vec::new();
            let mut round: u8 = 0;
            while round < *times
                invariant
                    round <= *times,
                    step_views(result@) == repeated(step_views(children@), round as nat),
                decreases *times - round,
            {
                append_copies(&mut result, &children);
                round += 1;
            }
            Ok(result)
        },
        WorkoutStepRaw::Run { name, duration, pace, angle } => {
            let pace = match parse_pace(pace) {
                Ok(pace) => pace,
                Err(error) => {
                    return Err(error);
                },
            };
            let duration = match parse_duration(duration.as_str()) {
                Ok(duration) => duration,
                Err(error) => {
                    return Err(error);
                },
            };
            let resolved = WorkoutStep {
                name: name.clone(),
                duration,
                distance: travelled(pace, duration),
                pace,
                angle: *angle,
            };
            let mut result: Vec<WorkoutStep> = Vec::new();
            result.push(resolved);
            assert(step_views(result@) =~= seq![resolved@]);
            Ok(result)
        },
    }
}

/// Compiles a workout definition into a plan.
///
/// The steps are those of the definition's steps, one after the other. The
/// totals are summed over the steps as laid out, each distance as derived
/// for its step; a total above 65535 wraps around. The result is the error
/// of the first run whose pace or duration cannot be read.
pub fn parse_workout(workout: &WorkoutRaw) -> (result: Result<Workout, ParseError>)
    ensures
        plan_result_view(result) == plan_of(*workout),
        result matches Ok(plan) ==> plan.totals_match(),
{
    let steps = match compile_steps(&workout.steps) {
        Ok(steps) => steps,
        Err(error) => {
            return Err(error);
        },
    };
    let mut distance: u16 = 0;
    let mut duration: u16 = 0;
    let mut at: usize = 0;
    while at < steps.len()
        invariant
            at <= steps@.len(),
            duration == wrapped(sum_durations(step_views(steps@).take(at as int))),
            distance == wrapped(sum_distances(step_views(steps@).take(at as int))),
        decreases steps@.len() - at,
    {
        let ghost views = step_views(steps@);
        assert(views.take(at + 1).drop_last() =~= views.take(at as int));
        assert(views.take(at + 1).last() == steps@[at as int]@);
        distance = ((distance as u32 + steps[at].distance as u32) % 0x1_0000) as u16;
        duration = ((duration as u32 + steps[at].duration as u32) % 0x1_0000) as u16;
        at += 1;
    }
    assert(step_views(steps@).take(at as int) =~= step_views(steps@));
    Ok(
        Workout {
            duration,
            distance,
            steps,
            name: workout.name.clone(),
            description: workout.description.clone(),
        },
    )
}

/// Once a leading part of a list fails to compile, every longer part fails
/// with the same error.
pub proof fn lemma_compiled_steps_error_stays(
    steps: Seq<WorkoutStepRaw>,
    shorter: nat,
    longer: nat,
)
    requires
        shorter <= longer <= steps.len(),
        compiled_steps(steps, shorter) is Err,
    ensures
        compiled_steps(steps, longer) == compiled_steps(steps, shorter),
    decreases longer,
{
    if shorter < longer {
        lemma_compiled_steps_error_stays(steps, shorter, (longer - 1) as nat);
    }
}

/// Repeating a sequence multiplies its length.
pub proof fn lemma_repeated_len<T>(items: Seq<T>, times: nat)
    ensures
        repeated(items, times).len() == times * items.len(),
    decreases times,
{
    if times > 0 {
        lemma_repeated_len(items, (times - 1) as nat);
        assert(times * items.len() == (times - 1) * items.len() + items.len())
            by (nonlinear_arith);
    } else {
        assert(times * items.len() == 0) by (nonlinear_arith)
            requires
                times == 0,
        ;
    }
}

/// Every round of a repetition holds the same items in the same order: the
/// item at any place is the item of `items` at that place modulo the length
/// of `items`.
pub proof fn lemma_repeated_index<T>(items: Seq<T>, times: nat, place: int)
    requires
        0 <= place < repeated(items, times).len(),
    ensures
        items.len() > 0,
        repeated(items, times)[place] == items[place % (items.len() as int)],
    decreases times,
{
    let len = items.len() as int;
    lemma_repeated_len(items, times);
    if times > 0 {
        let front = (times - 1) * len;
        lemma_repeated_len(items, (times - 1) as nat);
        assert(times * len == front + len) by (nonlinear_arith)
            requires
                front == (times - 1) * len,
        ;
        if place < front {
            lemma_repeated_index(items, (times - 1) as nat, place);
        } else {
            vstd::arithmetic::div_mod::lemma_fundamental_div_mod_converse(
                place,
                len,
                times - 1,
                place - front,
            );
        }
    }
}

/// The totals of two sequences laid end to end are the sums of their totals.
pub proof fn lemma_sums_of_concat(front: Seq<StepView>, back: Seq<StepView>)
    ensures
        sum_durations(front + back) == sum_durations(front) + sum_durations(back),
        sum_distances(front + back) == sum_distances(front) + sum_distances(back),
    decreases back.len(),
{
    if back.len() == 0 {
        assert(front + back =~= front);
    } else {
        assert((front + back).drop_last() =~= front + back.drop_last());
        lemma_sums_of_concat(front, back.drop_last());
    }
}

/// The totals of a repetition are the totals of one round times the number
/// of rounds: each step counts with the distance derived for it, in every
/// round.
pub proof fn lemma_sums_of_repeated(steps: Seq<StepView>, times: nat)
    ensures
        sum_durations(repeated(steps, times)) == times * sum_durations(steps),
        sum_distances(repeated(steps, times)) == times * sum_distances(steps),
    decreases times,
{
    if times > 0 {
        lemma_sums_of_repeated(steps, (times - 1) as nat);
        lemma_sums_of_concat(repeated(steps, (times - 1) as nat), steps);
        assert(times * sum_durations(steps) == (times - 1) * sum_durations(steps)
            + sum_durations(steps)) by (nonlinear_arith);
        assert(times * sum_distances(steps) == (times - 1) * sum_distances(steps)
            + sum_distances(steps)) by (nonlinear_arith);
    } else {
        assert(times * sum_durations(steps) == 0 && times * sum_distances(steps) == 0)
            by (nonlinear_arith)
            requires
                times == 0,
        ;
    }
}

/// A repeat that compiles gives its children's steps `times` times over,
/// and its totals are `times` times theirs.
pub proof fn lemma_repeat_multiplies(step: WorkoutStepRaw)
    requires
        step is Repeat,
        compiled_step(step) is Ok,
    ensures
        ({
            let times = step->times as nat;
            let children = compiled_steps(step->steps@, step->steps@.len());
            let steps = compiled_step(step)->Ok_0;
            &&& children is Ok
            &&& steps == repeated(children->Ok_0, times)
            &&& steps.len() == times * children->Ok_0.len()
            &&& sum_durations(steps) == times * sum_durations(children->Ok_0)
            &&& sum_distances(steps) == times * sum_distances(children->Ok_0)
        }),
{
    let children = compiled_steps(step->steps@, step->steps@.len())->Ok_0;
    lemma_repeated_len(children, step->times as nat);
    lemma_sums_of_repeated(children, step->times as nat);
}

impl StepView {
    /// Whether the distance is the one derived from pace and duration.
    pub open spec fn distance_is_derived(self) -> bool {
        self.distance == distance_of(self.pace, self.duration)
    }
}

/// Every step that compiling gives carries the distance derived from its own
/// pace and duration.
pub proof fn lemma_compiled_step_distances(step: WorkoutStepRaw, place: int)
    requires
        compiled_step(step) is Ok,
        0 <= place < compiled_step(step)->Ok_0.len(),
    ensures
        compiled_step(step)->Ok_0[place].distance_is_derived(),
    decreases step, 0nat,
{
    match step {
        WorkoutStepRaw::Run { .. } => {},
        WorkoutStepRaw::Repeat { times, steps } => {
            let children = compiled_steps(steps@, steps@.len())->Ok_0;
            lemma_repeated_index(children, times as nat, place);
            lemma_compiled_steps_distances(
                steps@,
                steps@.len(),
                place % (children.len() as int),
            );
        },
    }
}

/// Every step that compiling a list gives carries the distance derived from
/// its own pace and duration.
pub proof fn lemma_compiled_steps_distances(steps: Seq<WorkoutStepRaw>, count: nat, place: int)
    requires
        compiled_steps(steps, count) is Ok,
        0 <= place < compiled_steps(steps, count)->Ok_0.len(),
    ensures
        compiled_steps(steps, count)->Ok_0[place].distance_is_derived(),
    decreases steps, count,
{
    if count != 0 && count <= steps.len() {
        let front = compiled_steps(steps, (count - 1) as nat)->Ok_0;
        if place < front.len() {
            lemma_compiled_steps_distances(steps, (count - 1) as nat, place);
        } else {
            lemma_compiled_step_distances(steps[count - 1], place - front.len());
        }
    }
}

} // verus!
