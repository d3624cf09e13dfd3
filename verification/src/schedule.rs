//! Schedule tasks across workstreams and the dependency graph between them.
use vstd::prelude::*;
use crate::dates::{days_between, shift_day, valid_day};
use crate::dependency_graph::Dependency;
use crate::error::ApiError;
use crate::authz::{authorize_project, authorize_project_workstream, project_access, project_workstream_access, RoleAssignment};
use crate::dependency_graph::{acyclic, has_edge, lemma_insert_keeps_acyclic, reaches, would_create_cycle};
use crate::error::BadRequest;
use crate::lookup::{find_by_key, index_of_id, lemma_position_of, Keyed};
use crate::project::Project;
use crate::text::{blank, is_blank, str_is};
use std::collections::{HashSet, VecDeque};

verus! {

/// Workstream catalog a project can enable.
#[derive(Clone, Copy, Debug, PartialEq, Eq, Structural)]
pub enum WorkstreamType {
    Design,
    Manufacturing,
    Procurement,
    SiteExecution,
}

/// Business-unit role an internal user may hold.
#[derive(Clone, Copy, Debug, PartialEq, Eq, Structural)]
pub enum Role {
    SalesDesign,
    Delivery,
    Finance,
}

/// The role that may create or edit schedule tasks of a workstream: sales
/// and design for design work, delivery for the rest.
pub open spec fn spec_role_for_workstream(wt: WorkstreamType) -> Role {
    if wt == WorkstreamType::Design {
        Role::SalesDesign
    } else {
        Role::Delivery
    }
}

/// The role that may create or edit schedule tasks of a workstream.
pub fn role_for_workstream(wt: WorkstreamType) -> (r: Role)
    ensures
        r == spec_role_for_workstream(wt),
{
    match wt {
        WorkstreamType::Design => Role::SalesDesign,
        WorkstreamType::Manufacturing | WorkstreamType::Procurement | WorkstreamType::SiteExecution => Role::Delivery,
    }
}

} // verus!

verus! {

broadcast use vstd::seq_lib::group_seq_properties;

/// Progress of a schedule task.
#[derive(Clone, Copy, Debug, PartialEq, Eq, Structural)]
pub enum TaskStatus {
    NotStarted,
    InProgress,
    Done,
}

/// The status a stored name denotes: `"not_started"`, `"in_progress"` or
/// `"done"`.
pub open spec fn spec_parse_task_status(s: Seq<char>) -> Option<TaskStatus> {
    if s == "not_started"@ {
        Some(TaskStatus::NotStarted)
    } else if s == "in_progress"@ {
        Some(TaskStatus::InProgress)
    } else if s == "done"@ {
        Some(TaskStatus::Done)
    } else {
        None
    }
}

/// Law: each status name denotes its own status and no other:
/// "not_started" not started, "in_progress" in progress, "done" done; any
/// other text denotes no status.
pub proof fn lemma_task_status_names(s: Seq<char>)
    ensures
        (spec_parse_task_status(s) == Some(TaskStatus::NotStarted)) <==> s == "not_started"@,
        (spec_parse_task_status(s) == Some(TaskStatus::InProgress)) <==> s == "in_progress"@,
        (spec_parse_task_status(s) == Some(TaskStatus::Done)) <==> s == "done"@,
        spec_parse_task_status(s) is None <==> (s != "not_started"@ && s != "in_progress"@ && s != "done"@),
{
    reveal_strlit("not_started");
    reveal_strlit("in_progress");
    reveal_strlit("done");
    assert("not_started"@.len() == 11 && "in_progress"@.len() == 11 && "done"@.len() == 4);
    assert("not_started"@[0] != "in_progress"@[0]);
}

impl TaskStatus {
    /// Reads a status name.
    pub fn parse(s: &str) -> (r: Option<TaskStatus>)
        ensures
            r == spec_parse_task_status(s@),
    {
        if str_is(s, "not_started") {
            Some(TaskStatus::NotStarted)
        } else if str_is(s, "in_progress") {
            Some(TaskStatus::InProgress)
        } else if str_is(s, "done") {
            Some(TaskStatus::Done)
        } else {
            None
        }
    }
}

/// Planned and actual dates of a schedule task, as day numbers.
#[derive(Clone, Copy, Debug, PartialEq, Eq, Structural)]
pub struct ScheduleDates {
    pub planned_start_date: Option<i32>,
    pub planned_end_date: Option<i32>,
    pub actual_start_date: Option<i32>,
    pub actual_end_date: Option<i32>,
}

/// The scheduling view of a task of any workstream.
#[derive(Clone, Copy, Debug, PartialEq, Eq, Structural)]
pub struct ScheduleTask {
    pub id: u128,
    pub project_id: u128,
    pub workstream_type: WorkstreamType,
    pub status: TaskStatus,
    pub dates: ScheduleDates,
    /// The site task this schedule task tracks, if any.
    pub site_task_id: Option<u128>,
}

impl Keyed for ScheduleTask {
    open spec fn key(&self) -> u128 {
        self.id
    }

    fn id_of(&self) -> (r: u128) {
        self.id
    }
}

/// A task moved by a schedule slip, and the precedent whose slip moved it.
#[derive(Clone, Copy, Debug, PartialEq, Eq, Structural)]
pub struct Shift {
    pub task_id: u128,
    pub precedent_id: u128,
}

/// A task's effective end: its actual end if recorded, otherwise its plan.
pub open spec fn spec_effective_end(d: ScheduleDates) -> Option<i32> {
    match d.actual_end_date {
        Some(e) => Some(e),
        None => d.planned_end_date,
    }
}

/// A task's effective end: its actual end if recorded, otherwise its plan.
pub fn effective_end(dates: &ScheduleDates) -> (r: Option<i32>)
    ensures
        r == spec_effective_end(*dates),
{
    match dates.actual_end_date {
        Some(e) => Some(e),
        None => dates.planned_end_date,
    }
}

/// No two tasks share an id.
pub open spec fn ids_unique(tasks: Seq<ScheduleTask>) -> bool {
    forall|i: int, j: int| 0 <= i < tasks.len() && 0 <= j < tasks.len() && i != j ==> tasks[i].id != tasks[j].id
}

/// Some task has id `id`.
pub open spec fn has_task(tasks: Seq<ScheduleTask>, id: u128) -> bool {
    exists|i: int| 0 <= i < tasks.len() && #[trigger] tasks[i].id == id
}

/// The position of the task with id `id` (meaningful when `has_task`).
pub open spec fn task_index(tasks: Seq<ScheduleTask>, id: u128) -> int {
    choose|i: int| 0 <= i < tasks.len() && #[trigger] tasks[i].id == id
}

/// `o` moved by `delta` days.
pub open spec fn shift_opt(o: Option<i32>, delta: int) -> Option<i32> {
    match o {
        Some(d) => Some((d + delta) as i32),
        None => None,
    }
}

/// The task with both planned dates moved by `delta` days.
pub open spec fn shifted_task(t: ScheduleTask, delta: int) -> ScheduleTask {
    ScheduleTask {
        dates: ScheduleDates {
            planned_start_date: shift_opt(t.dates.planned_start_date, delta),
            planned_end_date: shift_opt(t.dates.planned_end_date, delta),
            ..t.dates
        },
        ..t
    }
}

/// A dependent must move when its planned start no longer follows the end of
/// its precedent.
pub open spec fn needs_shift(t: ScheduleTask, precedent_end: i32) -> bool {
    match t.dates.planned_start_date {
        Some(start) => start < precedent_end,
        None => false,
    }
}

/// Both planned dates of `t`, and those dates moved by `delta`, are dates
/// chrono represents.
pub open spec fn shift_in_range(t: ScheduleTask, delta: int) -> bool {
    &&& (t.dates.planned_start_date matches Some(d) ==> valid_day(d as int) && valid_day(d + delta))
    &&& (t.dates.planned_end_date matches Some(d) ==> valid_day(d as int) && valid_day(d + delta))
}

/// Some dependency makes the task `id` a dependent: only such a task can be
/// moved by a slip.
pub open spec fn is_dependent(edges: Seq<Dependency>, id: u128) -> bool {
    exists|i: int| 0 <= i < edges.len() && (#[trigger] edges[i]).task_id == id
}

/// State of the forward pass: the tasks as updated so far, the precedents
/// still to visit, the tasks already considered, and the shifts made.
pub struct ShiftState {
    pub tasks: Seq<ScheduleTask>,
    pub queue: Seq<u128>,
    pub visited: Seq<u128>,
    pub shifts: Seq<Shift>,
}

/// Considers, in edge order from position `i`, each not yet visited direct
/// dependent of `precedent`: it is marked visited, and moved by `delta`
/// (and queued) when its planned start precedes `precedent_end`.
pub open spec fn visit_dependents(
    s: ShiftState,
    edges: Seq<Dependency>,
    precedent: u128,
    precedent_end: i32,
    delta: int,
    i: int,
) -> Result<ShiftState, ApiError>
    decreases edges.len() - i,
{
    if i < 0 || i >= edges.len() {
        Ok(s)
    } else {
        let e = edges[i];
        if e.depends_on_task_id != precedent || s.visited.contains(e.task_id) {
            visit_dependents(s, edges, precedent, precedent_end, delta, i + 1)
        } else if !has_task(s.tasks, e.task_id) {
            Err(ApiError::NotFound)
        } else {
            let k = task_index(s.tasks, e.task_id);
            let t = s.tasks[k];
            if needs_shift(t, precedent_end) {
                visit_dependents(
                    ShiftState {
                        tasks: s.tasks.update(k, shifted_task(t, delta)),
                        queue: s.queue.push(e.task_id),
                        visited: s.visited.push(e.task_id),
                        shifts: s.shifts.push(Shift { task_id: e.task_id, precedent_id: precedent }),
                    },
                    edges,
                    precedent,
                    precedent_end,
                    delta,
                    i + 1,
                )
            } else {
                visit_dependents(
                    ShiftState { visited: s.visited.push(e.task_id), ..s },
                    edges,
                    precedent,
                    precedent_end,
                    delta,
                    i + 1,
                )
            }
        }
    }
}

/// One step of the forward pass: takes the next precedent off the queue and,
/// if it has an effective end, visits its direct dependents.
pub open spec fn shift_step(s: ShiftState, edges: Seq<Dependency>, delta: int) -> Result<ShiftState, ApiError> {
    let p = s.queue[0];
    let popped = ShiftState { queue: s.queue.drop_first(), ..s };
    if !has_task(s.tasks, p) {
        Err(ApiError::NotFound)
    } else {
        match spec_effective_end(s.tasks[task_index(s.tasks, p)].dates) {
            None => Ok(popped),
            Some(end) => visit_dependents(popped, edges, p, end, delta, 0),
        }
    }
}

/// The forward pass run for at most `fuel` steps: `None` if it has not
/// finished by then, otherwise its final state or its error.
pub open spec fn shift_run(s: ShiftState, edges: Seq<Dependency>, delta: int, fuel: nat) -> Option<
    Result<ShiftState, ApiError>,
>
    decreases fuel,
{
    if s.queue.len() == 0 {
        Some(Ok(s))
    } else if fuel == 0 {
        None
    } else {
        match shift_step(s, edges, delta) {
            Err(e) => Some(Err(e)),
            Ok(next) => shift_run(next, edges, delta, (fuel - 1) as nat),
        }
    }
}

/// The forward pass starts from the slipped task alone.
pub open spec fn shift_start(tasks: Seq<ScheduleTask>, root: u128) -> ShiftState {
    ShiftState { tasks, queue: seq![root], visited: seq![root], shifts: Seq::empty() }
}

/// The ids of the moved tasks, in the order they moved.
pub open spec fn shifted_ids(shifts: Seq<Shift>) -> Seq<u128> {
    shifts.map_values(|s: Shift| s.task_id)
}

/// Tasks after a forward pass, and the shifts it made in order.
pub struct ShiftOutcome {
    pub tasks: Vec<ScheduleTask>,
    pub shifts: Vec<Shift>,
}

fn find_task(tasks: &Vec<ScheduleTask>, id: u128) -> (r: Option<usize>)
    requires
        ids_unique(tasks@),
    ensures
        r is None <==> !has_task(tasks@, id),
        r matches Some(k) ==> k < tasks@.len() && tasks@[k as int].id == id && k == task_index(tasks@, id),
{
    let mut i: usize = 0;
    while i < tasks.len()
        invariant
            i <= tasks.len(),
            ids_unique(tasks@),
            forall|j: int| 0 <= j < i ==> tasks@[j].id != id,
        decreases tasks.len() - i,
    {
        if tasks[i].id == id {
            proof {
                assert(tasks@[i as int].id == id);
                assert(has_task(tasks@, id));
                let k = task_index(tasks@, id);
                assert(tasks@[k].id == id);
            }
            return Some(i);
        }
        i = i + 1;
    }
    None
}

/// The ids a forward pass over `tasks` from `root` can ever visit.
spec fn reachable_ids(tasks: Seq<ScheduleTask>, root: u128) -> Set<u128> {
    tasks.map_values(|t: ScheduleTask| t.id).to_set().insert(root)
}

proof fn lemma_visited_bound(tasks: Seq<ScheduleTask>, root: u128, visited: Seq<u128>)
    requires
        visited.no_duplicates(),
        forall|x: u128| #[trigger] visited.contains(x) ==> x == root || has_task(tasks, x),
    ensures
        visited.len() <= tasks.len() + 1,
{
    let ids = tasks.map_values(|t: ScheduleTask| t.id);
    ids.lemma_cardinality_of_set();
    visited.unique_seq_to_set();
    assert(visited.to_set().subset_of(reachable_ids(tasks, root))) by {
        assert forall|x: u128| visited.to_set().contains(x) implies reachable_ids(tasks, root).contains(x) by {
            let i = choose|i: int| 0 <= i < visited.len() && visited[i] == x;
            assert(visited.contains(x));
            if x != root {
                let k = choose|k: int| 0 <= k < tasks.len() && #[trigger] tasks[k].id == x;
                assert(ids[k] == x);
            }
        }
    }
    vstd::set_lib::lemma_len_subset(visited.to_set(), reachable_ids(tasks, root));
}


/// The tasks after a pass, related to the tasks before it: exactly the moved
/// tasks have both planned dates moved by `delta`; all else is unchanged.
pub open spec fn moved_exactly(before: Seq<ScheduleTask>, after: Seq<ScheduleTask>, shifts: Seq<Shift>, delta: int) -> bool {
    &&& after.len() == before.len()
    &&& forall|k: int|
        0 <= k < before.len() ==> #[trigger] after[k] == (if shifted_ids(shifts).contains(before[k].id) {
            shifted_task(before[k], delta)
        } else {
            before[k]
        })
}

/// Each move follows a dependency: the moved task depends directly on its
/// precedent, which is the slipped task or a task moved before it.
pub open spec fn shifts_follow_edges(edges: Seq<Dependency>, root: u128, shifts: Seq<Shift>) -> bool {
    forall|j: int|
        0 <= j < shifts.len() ==> {
            &&& has_edge(edges, (#[trigger] shifts[j]).task_id, shifts[j].precedent_id)
            &&& (shifts[j].precedent_id == root || exists|k: int|
                0 <= k < j && shifts[k].task_id == shifts[j].precedent_id)
        }
}

/// The move `m` was needed: before the pass, the moved task's planned start
/// fell before the effective end its precedent has after the pass.
pub open spec fn move_needed(before: Seq<ScheduleTask>, after: Seq<ScheduleTask>, m: Shift) -> bool {
    exists|a: int, b: int|
        #![trigger before[a], after[b]]
        0 <= a < before.len() && 0 <= b < after.len() && before[a].id == m.task_id && after[b].id == m.precedent_id
            && (spec_effective_end(after[b].dates) matches Some(end) && needs_shift(before[a], end))
}

/// Every move the pass made was needed.
pub open spec fn shifts_were_needed(before: Seq<ScheduleTask>, after: Seq<ScheduleTask>, shifts: Seq<Shift>) -> bool {
    forall|j: int| 0 <= j < shifts.len() ==> move_needed(before, after, #[trigger] shifts[j])
}

/// `d` absorbs a slip: it depends directly on the slipped task or on a
/// moved task whose effective end (after the pass) does not fall after its
/// planned start (before the pass).
pub open spec fn absorbs_slip(
    before: Seq<ScheduleTask>,
    after: Seq<ScheduleTask>,
    edges: Seq<Dependency>,
    root: u128,
    shifts: Seq<Shift>,
    d: u128,
) -> bool {
    exists|q: u128, a: int, b: int|
        #![trigger has_edge(edges, d, q), before[a], after[b]]
        0 <= a < before.len() && 0 <= b < after.len() && before[a].id == d && after[b].id == q && has_edge(edges, d, q)
            && (q == root || shifted_ids(shifts).contains(q)) && (spec_effective_end(after[b].dates) matches Some(end)
            && !needs_shift(before[a], end))
}

/// No task with id `x` has an effective end.
pub open spec fn ends_none(tasks: Seq<ScheduleTask>, x: u128) -> bool {
    forall|b: int| 0 <= b < tasks.len() && (#[trigger] tasks[b]).id == x ==> spec_effective_end(tasks[b].dates) is None
}

/// Every direct dependent of the slipped task or of a moved task that has an
/// effective end is moved, or is the slipped task itself, or absorbs the
/// slip of one of the tasks it depends on.
pub open spec fn dependents_handled(
    before: Seq<ScheduleTask>,
    after: Seq<ScheduleTask>,
    edges: Seq<Dependency>,
    root: u128,
    shifts: Seq<Shift>,
) -> bool {
    forall|i: int|
        0 <= i < edges.len() && (edges[i].depends_on_task_id == root || shifted_ids(shifts).contains(
            edges[i].depends_on_task_id,
        )) && !ends_none(after, edges[i].depends_on_task_id) ==> {
            let d = (#[trigger] edges[i]).task_id;
            d == root || shifted_ids(shifts).contains(d) || absorbs_slip(before, after, edges, root, shifts, d)
        }
}

/// Every considered task is the slipped task, a moved task, or absorbs a slip.
spec fn visited_settled(
    t0: Seq<ScheduleTask>,
    tasks: Seq<ScheduleTask>,
    edges: Seq<Dependency>,
    root: u128,
    shifts: Seq<Shift>,
    visited: Seq<u128>,
) -> bool {
    forall|x: u128|
        #[trigger] visited.contains(x) ==> x == root || shifted_ids(shifts).contains(x) || absorbs_slip(
            t0,
            tasks,
            edges,
            root,
            shifts,
            x,
        )
}

/// Every processed precedent has had all its direct dependents considered,
/// or has no effective end.
spec fn done_settled(tasks: Seq<ScheduleTask>, edges: Seq<Dependency>, visited: Seq<u128>, done: Seq<u128>) -> bool {
    &&& forall|x: u128| #[trigger] done.contains(x) ==> visited.contains(x)
    &&& forall|x: u128, i: int|
        #![trigger done.contains(x), edges[i]]
        done.contains(x) && 0 <= i < edges.len() && edges[i].depends_on_task_id == x ==> visited.contains(
            edges[i].task_id,
        ) || ends_none(tasks, x)
}

/// The slipped task and every moved task is queued or processed.
spec fn precedents_covered(root: u128, shifts: Seq<Shift>, queue: Seq<u128>, done: Seq<u128>) -> bool {
    &&& (queue.contains(root) || done.contains(root))
    &&& forall|x: u128| #[trigger] shifted_ids(shifts).contains(x) ==> queue.contains(x) || done.contains(x)
}

/// Every precedent waiting in the queue is the slipped task or a moved task.
spec fn queued_from_moves(queue: Seq<u128>, root: u128, shifts: Seq<Shift>) -> bool {
    forall|q: int| 0 <= q < queue.len() ==> #[trigger] queue[q] == root || shifted_ids(shifts).contains(queue[q])
}

/// The invariant of the forward pass between steps.
spec fn pass_inv(
    t0: Seq<ScheduleTask>,
    root: u128,
    delta: int,
    edges: Seq<Dependency>,
    tasks: Seq<ScheduleTask>,
    visited: Seq<u128>,
    shifts: Seq<Shift>,
) -> bool {
    &&& ids_unique(t0)
    &&& forall|k: int|
        0 <= k < t0.len() && t0[k].id != root && is_dependent(edges, t0[k].id) ==> shift_in_range(
            #[trigger] t0[k],
            delta,
        )
    &&& moved_exactly(t0, tasks, shifts, delta)
    &&& ids_unique(tasks)
    &&& visited.no_duplicates()
    &&& visited.len() >= 1
    &&& visited[0] == root
    &&& forall|x: u128| #[trigger] visited.contains(x) ==> x == root || has_task(tasks, x)
    &&& forall|j: int| 0 <= j < shifts.len() ==> visited.contains(#[trigger] shifts[j].task_id)
    &&& forall|j: int| 0 <= j < shifts.len() ==> (#[trigger] shifts[j]).task_id != root
    &&& shifted_ids(shifts).no_duplicates()
    &&& shifts_follow_edges(edges, root, shifts)
    &&& shifts_were_needed(t0, tasks, shifts)
}

proof fn lemma_same_ids(t0: Seq<ScheduleTask>, tasks: Seq<ScheduleTask>, shifts: Seq<Shift>, delta: int, id: u128)
    requires
        moved_exactly(t0, tasks, shifts, delta),
    ensures
        has_task(tasks, id) == has_task(t0, id),
        forall|k: int| 0 <= k < tasks.len() ==> (#[trigger] tasks[k]).id == t0[k].id,
{
    assert forall|k: int| 0 <= k < tasks.len() implies (#[trigger] tasks[k]).id == t0[k].id by {
        assert(tasks[k] == (if shifted_ids(shifts).contains(t0[k].id) {
            shifted_task(t0[k], delta)
        } else {
            t0[k]
        }));
    }
    if has_task(tasks, id) {
        let k = choose|k: int| 0 <= k < tasks.len() && #[trigger] tasks[k].id == id;
        assert(t0[k].id == id);
    }
    if has_task(t0, id) {
        let k = choose|k: int| 0 <= k < t0.len() && #[trigger] t0[k].id == id;
        assert(tasks[k].id == id);
    }
}

/// Basic forward-pass propagation of a schedule slip of `delta_days` days
/// from the task `root_id`: a breadth-first walk over direct dependents in
/// edge order. A dependent moves (both planned dates, by the same
/// `delta_days`) only when its planned start precedes its precedent's
/// effective end; a dependent with enough slack absorbs the slip and the
/// walk does not continue through it. Each task is considered at most once.
#[verifier::rlimit(80)]
#[verifier::spinoff_prover]
pub fn propagate_shift(tasks: Vec<ScheduleTask>, edges: &Vec<Dependency>, root_id: u128, delta_days: i64) -> (r: Result<
    ShiftOutcome,
    ApiError,
>)
    requires
        ids_unique(tasks@),
        forall|k: int|
            0 <= k < tasks@.len() && tasks@[k].id != root_id && is_dependent(edges@, tasks@[k].id) ==> shift_in_range(
                #[trigger] tasks@[k],
                delta_days as int,
            ),
    ensures
        match r {
            Ok(out) => exists|n: nat, s: ShiftState|
                #![trigger shift_run(shift_start(tasks@, root_id), edges@, delta_days as int, n), s.shifts]
                shift_run(shift_start(tasks@, root_id), edges@, delta_days as int, n) == Some(
                    Ok::<ShiftState, ApiError>(s),
                ) && s.tasks == out.tasks@ && s.shifts == out.shifts@,
            Err(e) => exists|n: nat|
                #[trigger] shift_run(shift_start(tasks@, root_id), edges@, delta_days as int, n) == Some(
                    Err::<ShiftState, ApiError>(e),
                ),
        },
        r matches Ok(out) ==> {
            &&& moved_exactly(tasks@, out.tasks@, out.shifts@, delta_days as int)
            &&& shifted_ids(out.shifts@).no_duplicates()
            &&& !shifted_ids(out.shifts@).contains(root_id)
            &&& forall|j: int| 0 <= j < out.shifts@.len() ==> has_task(tasks@, #[trigger] out.shifts@[j].task_id)
            &&& shifts_follow_edges(edges@, root_id, out.shifts@)
            &&& shifts_were_needed(tasks@, out.tasks@, out.shifts@)
            &&& dependents_handled(tasks@, out.tasks@, edges@, root_id, out.shifts@)
        },
{
    let ghost t0 = tasks@;
    let ghost delta = delta_days as int;
    let ghost init = shift_start(t0, root_id);
    let mut work = tasks;
    let mut queue: VecDeque<u128> = VecDeque::new();
    queue.push_back(root_id);
    broadcast use vstd::std_specs::hash::group_hash_axioms;
    let mut visited: Vec<u128> = Vec::new();
    visited.push(root_id);
    let mut seen: HashSet<u128> = HashSet::new();
    seen.insert(root_id);
    let mut shifts: Vec<Shift> = Vec::new();
    let ghost mut steps: nat = 0;
    let ghost mut done: Seq<u128> = Seq::empty();
    proof {
        assert(queue@ =~= seq![root_id]);
        assert(queue@[0] == root_id);
        assert(visited@ =~= seq![root_id]);
        assert(seen@ =~= visited@.to_set());
        assert(shifted_ids(shifts@) =~= Seq::<u128>::empty());
        assert(moved_exactly(t0, work@, shifts@, delta));
    }
    while queue.len() > 0
        invariant
            pass_inv(t0, root_id, delta, edges@, work@, visited@, shifts@),
            queued_from_moves(queue@, root_id, shifts@),
            visited_settled(t0, work@, edges@, root_id, shifts@, visited@),
            done_settled(work@, edges@, visited@, done),
            precedents_covered(root_id, shifts@, queue@, done),
            seen@ == visited@.to_set(),
            t0 == tasks@,
            init == shift_start(tasks@, root_id),
            forall|f: nat|
                #[trigger] shift_run(init, edges@, delta, steps + f) == shift_run(
                    ShiftState {
                        tasks: work@,
                        queue: queue@,
                        visited: visited@,
                        shifts: shifts@,
                    },
                    edges@,
                    delta,
                    f,
                ),
            delta == delta_days as int,
        decreases work.len() + 1 - visited.len(), queue.len(),
    {
        let ghost prev = ShiftState {
            tasks: work@,
            queue: queue@,
            visited: visited@,
            shifts: shifts@,
        };
        proof {
            lemma_visited_bound(work@, root_id, visited@);
        }
        let p = queue.pop_front().unwrap();
        let ghost popped = ShiftState {
            tasks: work@,
            queue: queue@,
            visited: visited@,
            shifts: shifts@,
        };
        proof {
            assert(prev.queue[0] == p);
            assert(prev.queue.drop_first() =~= popped.queue);
            assert forall|q: int| 0 <= q < queue@.len() implies #[trigger] queue@[q] == root_id || shifted_ids(
                shifts@,
            ).contains(queue@[q]) by {
                assert(queue@[q] == prev.queue[q + 1]);
            }
            assert forall|x: u128| prev.queue.contains(x) implies queue@.contains(x) || done.push(p).contains(x) by {
                let w = choose|w: int| 0 <= w < prev.queue.len() && prev.queue[w] == x;
                if w == 0 {
                    assert(done.push(p)[done.len() as int] == p);
                } else {
                    assert(queue@[w - 1] == x);
                }
            }
            assert forall|x: u128| done.contains(x) implies done.push(p).contains(x) by {
                let w = choose|w: int| 0 <= w < done.len() && done[w] == x;
                assert(done.push(p)[w] == x);
            }
            assert(precedents_covered(root_id, shifts@, queue@, done.push(p)));
            assert(visited@.contains(p)) by {
                if p == root_id {
                    assert(visited@[0] == root_id);
                } else {
                    let w = choose|w: int| 0 <= w < shifted_ids(shifts@).len() && shifted_ids(shifts@)[w] == p;
                    assert(shifts@[w].task_id == p);
                }
            }
        }
        let pk = match find_task(&work, p) {
            None => {
                proof {
                    assert(shift_step(prev, edges@, delta) == Err::<ShiftState, ApiError>(ApiError::NotFound));
                    assert(shift_run(prev, edges@, delta, 1) == Some(Err::<ShiftState, ApiError>(ApiError::NotFound)));
                    assert(shift_run(init, edges@, delta, steps + 1) == shift_run(prev, edges@, delta, 1));
                    let n: nat = steps + 1;
                    assert(shift_run(init, edges@, delta, n) == Some(Err::<ShiftState, ApiError>(ApiError::NotFound)));
                    assert(init == shift_start(t0, root_id));
                    assert(shift_run(shift_start(t0, root_id), edges@, delta_days as int, n) == Some(
                        Err::<ShiftState, ApiError>(ApiError::NotFound),
                    ));
                }
                return Err(ApiError::NotFound);
            },
            Some(k) => k,
        };
        let precedent_end = effective_end(&work[pk].dates);
        match precedent_end {
            None => {
                proof {
                    assert forall|b: int| 0 <= b < work@.len() && (#[trigger] work@[b]).id == p implies spec_effective_end(
                        work@[b].dates,
                    ) is None by {
                        assert(b == pk as int);
                    }
                    assert(ends_none(work@, p));
                    let old_done = done;
                    done = done.push(p);
                    assert forall|x: u128| #[trigger] done.contains(x) implies visited@.contains(x) by {
                        if x != p {
                            let w = choose|w: int| 0 <= w < done.len() && done[w] == x;
                            assert(old_done[w] == x);
                        }
                    }
                    assert forall|x: u128, j: int|
                        #![trigger done.contains(x), edges@[j]]
                        done.contains(x) && 0 <= j < edges@.len() && edges@[j].depends_on_task_id == x implies visited@.contains(
                        edges@[j].task_id,
                    ) || ends_none(work@, x) by {
                        if x != p {
                            let w = choose|w: int| 0 <= w < done.len() && done[w] == x;
                            assert(old_done[w] == x);
                        }
                    }
                    assert(shift_step(prev, edges@, delta) == Ok::<ShiftState, ApiError>(popped));
                    assert forall|f: nat| #[trigger]
                        shift_run(init, edges@, delta, (steps + 1) + f) == shift_run(popped, edges@, delta, f) by {
                        assert(shift_run(init, edges@, delta, steps + (1 + f)) == shift_run(
                            prev,
                            edges@,
                            delta,
                            1 + f,
                        ));
                    }
                    steps = steps + 1;
                }
            },
            Some(end) => {
                let ghost v0 = visited.len();
                let ghost q0 = queue.len();
                proof {
                    assert(shift_step(prev, edges@, delta) == visit_dependents(popped, edges@, p, end, delta, 0));
                }
                let mut i: usize = 0;
                while i < edges.len()
                    invariant
                        i <= edges.len(),
                        q0 <= queue.len(),
                        v0 <= visited.len(),
                        queue.len() - q0 <= visited.len() - v0,
                        pass_inv(t0, root_id, delta, edges@, work@, visited@, shifts@),
                        queued_from_moves(queue@, root_id, shifts@),
                        p == root_id || shifted_ids(shifts@).contains(p),
                        visited@.contains(p),
                        visited_settled(t0, work@, edges@, root_id, shifts@, visited@),
                        done_settled(work@, edges@, visited@, done),
                        precedents_covered(root_id, shifts@, queue@, done.push(p)),
                        forall|j: int|
                            0 <= j < i && (#[trigger] edges@[j]).depends_on_task_id == p ==> visited@.contains(
                                edges@[j].task_id,
                            ),
                        pk < work@.len(),
                        work@[pk as int].id == p,
                        spec_effective_end(work@[pk as int].dates) == Some(end),
                        seen@ == visited@.to_set(),
                        delta == delta_days as int,
                        t0 == tasks@,
                        init == shift_start(tasks@, root_id),
                        shift_step(prev, edges@, delta) == visit_dependents(popped, edges@, p, end, delta, 0),
                        prev.queue.len() > 0,
                        forall|f: nat|
                            #[trigger] shift_run(init, edges@, delta, steps + f) == shift_run(prev, edges@, delta, f),
                        visit_dependents(popped, edges@, p, end, delta, 0) == visit_dependents(
                            ShiftState {
                                tasks: work@,
                                queue: queue@,
                                visited: visited@,
                                shifts: shifts@,
                            },
                            edges@,
                            p,
                            end,
                            delta,
                            i as int,
                        ),
                    decreases edges.len() - i,
                {
                    let ghost cur = ShiftState {
                        tasks: work@,
                        queue: queue@,
                        visited: visited@,
                        shifts: shifts@,
                    };
                    let e = edges[i];
                    if e.depends_on_task_id == p && !seen.contains(&e.task_id) {
                        let k = match find_task(&work, e.task_id) {
                            None => {
                                proof {
                                    assert(visit_dependents(cur, edges@, p, end, delta, i as int) == Err::<
                                        ShiftState,
                                        ApiError,
                                    >(ApiError::NotFound));
                                    assert(shift_step(prev, edges@, delta) == Err::<ShiftState, ApiError>(
                                        ApiError::NotFound,
                                    ));
                                    assert(shift_run(prev, edges@, delta, 1) == Some(
                                        Err::<ShiftState, ApiError>(ApiError::NotFound),
                                    ));
                                    assert(shift_run(init, edges@, delta, steps + 1) == shift_run(
                                        prev,
                                        edges@,
                                        delta,
                                        1,
                                    ));
                                    let n: nat = steps + 1;
                                    assert(shift_run(shift_start(t0, root_id), edges@, delta_days as int, n)
                                        == Some(Err::<ShiftState, ApiError>(ApiError::NotFound)));
                                }
                                return Err(ApiError::NotFound);
                            },
                            Some(k) => k,
                        };
                        let t = work[k];
                        proof {
                            lemma_same_ids(t0, work@, shifts@, delta, e.task_id);
                            if shifted_ids(shifts@).contains(t0[k as int].id) {
                                let j = choose|j: int|
                                    0 <= j < shifted_ids(shifts@).len() && shifted_ids(shifts@)[j] == t0[k as int].id;
                                assert(shifts@[j].task_id == e.task_id);
                                assert(visited@.contains(shifts@[j].task_id));
                            }
                            assert(t == t0[k as int]);
                            assert(t0[k as int].id != root_id);
                            assert(visited@.contains(p)) by {
                                if p == root_id {
                                    assert(visited@[0] == root_id);
                                } else {
                                    let w = choose|w: int| 0 <= w < shifted_ids(shifts@).len() && shifted_ids(shifts@)[w] == p;
                                    assert(shifts@[w].task_id == p);
                                }
                            }
                            assert(!visited@.contains(e.task_id)) by {
                                assert(!seen@.contains(e.task_id));
                            }
                            assert(p != e.task_id);
                            assert forall|j: int| 0 <= j < shifts@.len() implies visited@.contains(
                                (#[trigger] shifts@[j]).precedent_id,
                            ) by {
                                if shifts@[j].precedent_id == root_id {
                                    assert(visited@[0] == root_id);
                                } else {
                                    let kk = choose|kk: int| 0 <= kk < j && shifts@[kk].task_id == shifts@[j].precedent_id;
                                    assert(visited@.contains(shifts@[kk].task_id));
                                }
                            }
                            assert(is_dependent(edges@, t0[k as int].id)) by {
                                assert(edges@[i as int].task_id == t0[k as int].id);
                            }
                            assert(shift_in_range(t0[k as int], delta));
                        }
                        let ghost vis0 = visited@;
                        visited.push(e.task_id);
                        seen.insert(e.task_id);
                        proof {
                            assert forall|x: u128| vis0.contains(x) implies #[trigger] visited@.contains(x) by {
                                let w = choose|w: int| 0 <= w < vis0.len() && vis0[w] == x;
                                assert(visited@[w] == x);
                            }
                            assert(visited@[vis0.len() as int] == e.task_id);
                        }
                        proof {
                            assert(seen@ =~= visited@.to_set());
                        }
                        let needs = match t.dates.planned_start_date {
                            Some(start) => start < end,
                            None => false,
                        };
                        if needs {
                            let new_start = match t.dates.planned_start_date {
                                Some(d) => shift_day(d, delta_days),
                                None => None,
                            };
                            let new_end = match t.dates.planned_end_date {
                                Some(d) => shift_day(d, delta_days),
                                None => None,
                            };
                            let moved = ScheduleTask {
                                dates: ScheduleDates {
                                    planned_start_date: new_start,
                                    planned_end_date: new_end,
                                    ..t.dates
                                },
                                ..t
                            };
                            proof {
                                assert(moved == shifted_task(t, delta));
                            }
                            let ghost old_tasks = work@;
                            let ghost old_shifts = shifts@;
                            work.set(k, moved);
                            queue.push_back(e.task_id);
                            shifts.push(Shift { task_id: e.task_id, precedent_id: p });
                            proof {
                                assert(shifted_ids(shifts@) =~= shifted_ids(old_shifts).push(e.task_id));
                                assert(queue@ =~= cur.queue.push(e.task_id));
                                assert forall|x: u128| shifted_ids(old_shifts).contains(x) implies shifted_ids(
                                    shifts@,
                                ).contains(x) by {
                                    let w = choose|w: int| 0 <= w < shifted_ids(old_shifts).len() && shifted_ids(old_shifts)[w] == x;
                                    assert(shifted_ids(shifts@)[w] == x);
                                }
                                assert(shifted_ids(shifts@)[old_shifts.len() as int] == e.task_id);
                                assert forall|q: int| 0 <= q < queue@.len() implies #[trigger] queue@[q] == root_id
                                    || shifted_ids(shifts@).contains(queue@[q]) by {
                                    if q < cur.queue.len() {
                                        assert(queue@[q] == cur.queue[q]);
                                    }
                                }
                                assert(has_edge(edges@, e.task_id, p)) by {
                                    assert(edges@[i as int] == Dependency { task_id: e.task_id, depends_on_task_id: p });
                                }
                                if p != root_id {
                                    let w = choose|w: int| 0 <= w < shifted_ids(old_shifts).len() && shifted_ids(old_shifts)[w] == p;
                                    assert(old_shifts[w].task_id == p);
                                    assert(shifts@[w] == old_shifts[w]);
                                }
                                assert forall|j: int| 0 <= j < shifts@.len() implies {
                                    &&& has_edge(edges@, (#[trigger] shifts@[j]).task_id, shifts@[j].precedent_id)
                                    &&& (shifts@[j].precedent_id == root_id || exists|k: int|
                                        0 <= k < j && shifts@[k].task_id == shifts@[j].precedent_id)
                                } by {
                                    if j < old_shifts.len() {
                                        assert(shifts@[j] == old_shifts[j]);
                                        if old_shifts[j].precedent_id != root_id {
                                            let k = choose|k: int| 0 <= k < j && old_shifts[k].task_id == old_shifts[j].precedent_id;
                                            assert(shifts@[k] == old_shifts[k]);
                                        }
                                    }
                                }
                                assert(work@[pk as int] == old_tasks[pk as int]);
                                assert forall|j: int| 0 <= j < shifts@.len() implies move_needed(
                                    t0,
                                    work@,
                                    #[trigger] shifts@[j],
                                ) by {
                                    if j < old_shifts.len() {
                                        assert(shifts@[j] == old_shifts[j]);
                                        assert(move_needed(t0, old_tasks, old_shifts[j]));
                                        let (a, b) = choose|a: int, b: int|
                                            0 <= a < t0.len() && 0 <= b < old_tasks.len() && t0[a].id == old_shifts[j].task_id
                                                && old_tasks[b].id == old_shifts[j].precedent_id && (spec_effective_end(
                                                old_tasks[b].dates,
                                            ) matches Some(end) && needs_shift(t0[a], end));
                                        assert(old_tasks[b].id != e.task_id);
                                        assert(work@[b] == old_tasks[b]);
                                        assert(t0[a] == t0[a] && work@[b] == work@[b]);
                                    } else {
                                        assert(shifts@[j] == Shift { task_id: e.task_id, precedent_id: p });
                                        assert(t0[k as int] == t0[k as int] && work@[pk as int] == work@[pk as int]);
                                    }
                                }
                                assert forall|m: int| 0 <= m < t0.len() implies #[trigger] work@[m] == (
                                if shifted_ids(shifts@).contains(t0[m].id) {
                                    shifted_task(t0[m], delta)
                                } else {
                                    t0[m]
                                }) by {
                                    if m == k {
                                    } else {
                                        assert(old_tasks[m] == work@[m]);
                                        assert(t0[m].id != e.task_id);
                                        assert(shifted_ids(shifts@).contains(t0[m].id) == shifted_ids(
                                            old_shifts,
                                        ).contains(t0[m].id));
                                    }
                                }
                                assert(moved_exactly(t0, work@, shifts@, delta));
                                lemma_same_ids(t0, work@, shifts@, delta, e.task_id);
                                assert forall|x: u128| #[trigger] visited@.contains(x) implies x == root_id || has_task(
                                    work@,
                                    x,
                                ) by {
                                    lemma_same_ids(t0, work@, shifts@, delta, x);
                                    lemma_same_ids(t0, old_tasks, old_shifts, delta, x);
                                    if x != e.task_id {
                                        assert(old_tasks =~= old_tasks);
                                    }
                                }
                                assert forall|a: int, b: int|
                                    0 <= a < work@.len() && 0 <= b < work@.len() && a != b implies work@[a].id
                                    != work@[b].id by {
                                    assert(work@[a].id == t0[a].id);
                                    assert(work@[b].id == t0[b].id);
                                }
                                assert forall|j: int| 0 <= j < shifts@.len() implies visited@.contains(
                                    #[trigger] shifts@[j].task_id,
                                ) by {
                                    if j < old_shifts.len() {
                                        assert(shifts@[j] == old_shifts[j]);
                                    }
                                }
                                assert(vis0.contains(root_id)) by {
                                    assert(vis0[0] == root_id);
                                }
                                assert(!vis0.contains(e.task_id));
                                assert forall|x: u128| #[trigger] visited@.contains(x) && x != e.task_id implies vis0.contains(x) by {
                                    let w = choose|w: int| 0 <= w < visited@.len() && visited@[w] == x;
                                    assert(w < vis0.len());
                                    assert(vis0[w] == x);
                                }
                                assert forall|x: u128| shifted_ids(old_shifts).contains(x) implies vis0.contains(x) by {
                                    let w = choose|w: int| 0 <= w < shifted_ids(old_shifts).len() && shifted_ids(old_shifts)[w] == x;
                                    assert(old_shifts[w].task_id == x);
                                }
                                assert forall|x: u128| shifted_ids(shifts@).contains(x) && x != e.task_id implies shifted_ids(
                                    old_shifts,
                                ).contains(x) by {
                                    let w = choose|w: int| 0 <= w < shifted_ids(shifts@).len() && shifted_ids(shifts@)[w] == x;
                                    assert(w < old_shifts.len());
                                    assert(shifted_ids(old_shifts)[w] == x);
                                }
                                assert forall|b: int| 0 <= b < work@.len() && vis0.contains(old_tasks[b].id) implies work@[b]
                                    == old_tasks[b] by {
                                    assert(b != k as int);
                                }
                                assert forall|x: u128| #[trigger] visited@.contains(x) implies x == root_id || shifted_ids(
                                    shifts@,
                                ).contains(x) || absorbs_slip(t0, work@, edges@, root_id, shifts@, x) by {
                                    if x != e.task_id {
                                        assert(vis0.contains(x));
                                        if x != root_id && !shifted_ids(old_shifts).contains(x) {
                                            assert(absorbs_slip(t0, old_tasks, edges@, root_id, old_shifts, x));
                                            let (q, a, b) = choose|q: u128, a: int, b: int|
                                                0 <= a < t0.len() && 0 <= b < old_tasks.len() && t0[a].id == x
                                                    && old_tasks[b].id == q && has_edge(edges@, x, q) && (q == root_id
                                                    || shifted_ids(old_shifts).contains(q)) && (spec_effective_end(
                                                    old_tasks[b].dates,
                                                ) matches Some(end) && !needs_shift(t0[a], end));
                                            assert(vis0.contains(q));
                                            assert(work@[b] == old_tasks[b]);
                                            assert(has_edge(edges@, x, q) && t0[a] == t0[a] && work@[b] == work@[b]);
                                        }
                                    }
                                }
                                assert forall|x: u128| #[trigger] done.contains(x) implies visited@.contains(x) by {
                                    assert(vis0.contains(x));
                                }
                                assert forall|x: u128, j: int|
                                    #![trigger done.contains(x), edges@[j]]
                                    done.contains(x) && 0 <= j < edges@.len() && edges@[j].depends_on_task_id == x implies visited@.contains(
                                    edges@[j].task_id,
                                ) || ends_none(work@, x) by {
                                    assert(vis0.contains(x));
                                    if !vis0.contains(edges@[j].task_id) {
                                        assert(ends_none(old_tasks, x));
                                        assert forall|b: int| 0 <= b < work@.len() && (#[trigger] work@[b]).id == x implies spec_effective_end(
                                            work@[b].dates,
                                        ) is None by {
                                            assert(old_tasks[b].id == x);
                                            assert(work@[b] == old_tasks[b]);
                                        }
                                    }
                                }
                                assert forall|x: u128| #[trigger] shifted_ids(shifts@).contains(x) implies queue@.contains(x)
                                    || done.push(p).contains(x) by {
                                    if x == e.task_id {
                                        assert(queue@[queue@.len() - 1] == e.task_id);
                                    } else if cur.queue.contains(x) {
                                        let w = choose|w: int| 0 <= w < cur.queue.len() && cur.queue[w] == x;
                                        assert(queue@[w] == x);
                                    }
                                }
                                assert(queue@.contains(root_id) || done.push(p).contains(root_id)) by {
                                    if cur.queue.contains(root_id) {
                                        let w = choose|w: int| 0 <= w < cur.queue.len() && cur.queue[w] == root_id;
                                        assert(queue@[w] == root_id);
                                    }
                                }
                                assert(shifted_ids(shifts@).contains(p) || p == root_id);
                                assert forall|j: int|
                                    0 <= j < i + 1 && (#[trigger] edges@[j]).depends_on_task_id == p implies visited@.contains(
                                    edges@[j].task_id,
                                ) by {
                                    if j < i {
                                        assert(vis0.contains(edges@[j].task_id));
                                    }
                                }
                                assert(visit_dependents(cur, edges@, p, end, delta, i as int)
                                    == visit_dependents(
                                    ShiftState {
                                        tasks: work@,
                                        queue: queue@,
                                        visited: visited@,
                                        shifts: shifts@,
                                    },
                                    edges@,
                                    p,
                                    end,
                                    delta,
                                    i + 1,
                                ));
                            }
                        } else {
                            proof {
                                assert forall|x: u128| #[trigger] visited@.contains(x) implies x == root_id || has_task(
                                    work@,
                                    x,
                                ) by {
                                }
                                assert forall|j: int| 0 <= j < shifts@.len() implies visited@.contains(
                                    #[trigger] shifts@[j].task_id,
                                ) by {
                                }
                                assert(vis0.contains(root_id)) by {
                                    assert(vis0[0] == root_id);
                                }
                                assert(!vis0.contains(e.task_id));
                                assert forall|x: u128| #[trigger] visited@.contains(x) && x != e.task_id implies vis0.contains(x) by {
                                    let w = choose|w: int| 0 <= w < visited@.len() && visited@[w] == x;
                                    assert(w < vis0.len());
                                    assert(vis0[w] == x);
                                }
                                assert(has_edge(edges@, e.task_id, p)) by {
                                    assert(edges@[i as int] == Dependency { task_id: e.task_id, depends_on_task_id: p });
                                }
                                assert(absorbs_slip(t0, work@, edges@, root_id, shifts@, e.task_id)) by {
                                    assert(t0[k as int].id == e.task_id);
                                    assert(!needs_shift(t0[k as int], end));
                                    assert(t0[k as int] == t0[k as int] && work@[pk as int] == work@[pk as int]);
                                }
                                assert forall|x: u128| #[trigger] visited@.contains(x) implies x == root_id || shifted_ids(
                                    shifts@,
                                ).contains(x) || absorbs_slip(t0, work@, edges@, root_id, shifts@, x) by {
                                    if x != e.task_id {
                                        assert(vis0.contains(x));
                                    }
                                }
                                assert forall|x: u128| #[trigger] done.contains(x) implies visited@.contains(x) by {
                                    assert(vis0.contains(x));
                                }
                                assert forall|x: u128, j: int|
                                    #![trigger done.contains(x), edges@[j]]
                                    done.contains(x) && 0 <= j < edges@.len() && edges@[j].depends_on_task_id == x implies visited@.contains(
                                    edges@[j].task_id,
                                ) || ends_none(work@, x) by {
                                    assert(vis0.contains(x));
                                }
                                assert forall|j: int|
                                    0 <= j < i + 1 && (#[trigger] edges@[j]).depends_on_task_id == p implies visited@.contains(
                                    edges@[j].task_id,
                                ) by {
                                    if j < i {
                                        assert(vis0.contains(edges@[j].task_id));
                                    }
                                }
                                assert(visit_dependents(cur, edges@, p, end, delta, i as int)
                                    == visit_dependents(
                                    ShiftState {
                                        tasks: work@,
                                        queue: queue@,
                                        visited: visited@,
                                        shifts: shifts@,
                                    },
                                    edges@,
                                    p,
                                    end,
                                    delta,
                                    i + 1,
                                ));
                            }
                        }
                    } else {
                        proof {
                            assert forall|j: int|
                                0 <= j < i + 1 && (#[trigger] edges@[j]).depends_on_task_id == p implies visited@.contains(
                                edges@[j].task_id,
                            ) by {
                                if j == i {
                                    assert(seen@.contains(e.task_id));
                                }
                            }
                            assert(visit_dependents(cur, edges@, p, end, delta, i as int) == visit_dependents(
                                cur,
                                edges@,
                                p,
                                end,
                                delta,
                                i + 1,
                            ));
                        }
                    }
                    i = i + 1;
                }
                proof {
                    let old_done = done;
                    done = done.push(p);
                    assert forall|x: u128| #[trigger] done.contains(x) implies visited@.contains(x) by {
                        if x != p {
                            let w = choose|w: int| 0 <= w < done.len() && done[w] == x;
                            assert(old_done[w] == x);
                        }
                    }
                    assert forall|x: u128, j: int|
                        #![trigger done.contains(x), edges@[j]]
                        done.contains(x) && 0 <= j < edges@.len() && edges@[j].depends_on_task_id == x implies visited@.contains(
                        edges@[j].task_id,
                    ) || ends_none(work@, x) by {
                        if x != p {
                            let w = choose|w: int| 0 <= w < done.len() && done[w] == x;
                            assert(old_done[w] == x);
                        }
                    }
                    let cur = ShiftState {
                        tasks: work@,
                        queue: queue@,
                        visited: visited@,
                        shifts: shifts@,
                    };
                    assert(visit_dependents(cur, edges@, p, end, delta, i as int) == Ok::<ShiftState, ApiError>(cur));
                    assert(shift_step(prev, edges@, delta) == Ok::<ShiftState, ApiError>(cur));
                    assert forall|f: nat| #[trigger]
                        shift_run(init, edges@, delta, (steps + 1) + f) == shift_run(cur, edges@, delta, f) by {
                        assert(shift_run(init, edges@, delta, steps + (1 + f)) == shift_run(
                            prev,
                            edges@,
                            delta,
                            1 + f,
                        ));
                    }
                    steps = steps + 1;
                    lemma_visited_bound(work@, root_id, visited@);
                }
            },
        }
    }
    proof {
        let fin = ShiftState {
            tasks: work@,
            queue: queue@,
            visited: visited@,
            shifts: shifts@,
        };
        assert(fin.queue.len() == 0);
        assert(shift_run(init, edges@, delta, steps + 0) == shift_run(fin, edges@, delta, 0));
        assert(shift_run(fin, edges@, delta, 0) == Some(Ok::<ShiftState, ApiError>(fin)));
        assert forall|j: int| 0 <= j < shifted_ids(shifts@).len() implies shifted_ids(shifts@)[j] != root_id by {
            assert(shifts@[j].task_id != root_id);
        }
        assert forall|j: int| 0 <= j < shifts@.len() implies has_task(tasks@, #[trigger] shifts@[j].task_id) by {
            assert(visited@.contains(shifts@[j].task_id));
            lemma_same_ids(t0, work@, shifts@, delta, shifts@[j].task_id);
        }
        assert forall|j: int|
            0 <= j < edges@.len() && (edges@[j].depends_on_task_id == root_id || shifted_ids(shifts@).contains(
                edges@[j].depends_on_task_id,
            )) && !ends_none(work@, edges@[j].depends_on_task_id) implies {
            let d = (#[trigger] edges@[j]).task_id;
            d == root_id || shifted_ids(shifts@).contains(d) || absorbs_slip(t0, work@, edges@, root_id, shifts@, d)
        } by {
            let x = edges@[j].depends_on_task_id;
            assert(!queue@.contains(x));
            assert(done.contains(x));
            assert(visited@.contains(edges@[j].task_id));
        }
    }
    Ok(ShiftOutcome { tasks: work, shifts })
}


/// A moved task is announced to the project team only while it has not
/// started and is not done.
pub open spec fn notice_due(t: ScheduleTask) -> bool {
    t.status != TaskStatus::Done && t.dates.actual_start_date is None
}

/// The moved tasks to announce, in the order they moved.
pub open spec fn notices(tasks: Seq<ScheduleTask>, shifts: Seq<Shift>) -> Seq<u128> {
    shifted_ids(shifts).filter(|id: u128| notice_due(tasks[task_index(tasks, id)]))
}

/// Law: a date update announces exactly the moved tasks that are neither
/// done nor started: every announced id is a moved task whose status is not
/// done and which has no actual start, and every moved task that is neither
/// done nor started is announced.
pub proof fn lemma_notices_skip_done_and_started(tasks: Seq<ScheduleTask>, shifts: Seq<Shift>)
    ensures
        forall|j: int|
            0 <= j < notices(tasks, shifts).len() ==> {
                let id = #[trigger] notices(tasks, shifts)[j];
                &&& shifted_ids(shifts).contains(id)
                &&& tasks[task_index(tasks, id)].status != TaskStatus::Done
                &&& tasks[task_index(tasks, id)].dates.actual_start_date is None
            },
        forall|j: int|
            0 <= j < shifts.len() && tasks[task_index(tasks, (#[trigger] shifts[j]).task_id)].status != TaskStatus::Done
                && tasks[task_index(tasks, shifts[j].task_id)].dates.actual_start_date is None ==> notices(
                tasks,
                shifts,
            ).contains(shifts[j].task_id),
{
    let pred = |id: u128| notice_due(tasks[task_index(tasks, id)]);
    let ids = shifted_ids(shifts);
    assert forall|j: int| 0 <= j < notices(tasks, shifts).len() implies {
        let id = #[trigger] notices(tasks, shifts)[j];
        &&& shifted_ids(shifts).contains(id)
        &&& tasks[task_index(tasks, id)].status != TaskStatus::Done
        &&& tasks[task_index(tasks, id)].dates.actual_start_date is None
    } by {
        ids.lemma_filter_pred(pred, j);
        assert(ids.filter(pred).contains(ids.filter(pred)[j]));
        ids.lemma_filter_contains_rev(pred, ids.filter(pred)[j]);
    }
    assert forall|j: int|
        0 <= j < shifts.len() && tasks[task_index(tasks, (#[trigger] shifts[j]).task_id)].status != TaskStatus::Done
            && tasks[task_index(tasks, shifts[j].task_id)].dates.actual_start_date is None implies notices(
        tasks,
        shifts,
    ).contains(shifts[j].task_id) by {
        assert(ids[j] == shifts[j].task_id);
        ids.lemma_filter_contains(pred, j);
    }
}

/// How many days later the effective end now falls, when it moved later.
pub open spec fn slip_days(before: ScheduleDates, after: ScheduleDates) -> Option<int> {
    match (spec_effective_end(before), spec_effective_end(after)) {
        (Some(old_end), Some(new_end)) => if new_end > old_end {
            Some(new_end - old_end)
        } else {
            None
        },
        _ => None,
    }
}

/// Result of replacing a task's dates.
pub struct DateUpdate {
    /// All tasks after the update and any forward pass.
    pub tasks: Vec<ScheduleTask>,
    /// The updated task.
    pub task: ScheduleTask,
    /// The dependents moved by the forward pass, in order.
    pub shifts: Vec<Shift>,
    /// The moved tasks whose project team is to be notified, in order.
    pub notify: Vec<u128>,
}

fn pending_notices(tasks: &Vec<ScheduleTask>, shifts: &Vec<Shift>) -> (r: Vec<u128>)
    requires
        ids_unique(tasks@),
        forall|j: int| 0 <= j < shifts@.len() ==> has_task(tasks@, #[trigger] shifts@[j].task_id),
    ensures
        r@ == notices(tasks@, shifts@),
{
    let ghost ids = shifted_ids(shifts@);
    let ghost pred = |id: u128| notice_due(tasks@[task_index(tasks@, id)]);
    let mut out: Vec<u128> = Vec::new();
    let mut i: usize = 0;
    proof {
        reveal(Seq::filter);
        assert(ids.take(0) =~= Seq::<u128>::empty());
    }
    while i < shifts.len()
        invariant
            i <= shifts.len(),
            ids == shifted_ids(shifts@),
            ids_unique(tasks@),
            forall|j: int| 0 <= j < shifts@.len() ==> has_task(tasks@, #[trigger] shifts@[j].task_id),
            pred == (|id: u128| notice_due(tasks@[task_index(tasks@, id)])),
            out@ == ids.take(i as int).filter(pred),
        decreases shifts.len() - i,
    {
        let id = shifts[i].task_id;
        let k = find_task(tasks, id).unwrap();
        let t = tasks[k];
        proof {
            reveal(Seq::filter);
            assert(ids.take(i + 1).drop_last() =~= ids.take(i as int));
            assert(ids.take(i + 1).last() == id);
        }
        if t.status != TaskStatus::Done && t.dates.actual_start_date.is_none() {
            out.push(id);
        }
        i = i + 1;
    }
    proof {
        assert(ids.take(shifts@.len() as int) =~= ids);
    }
    out
}

/// Replaces all four dates of task `task_id`. The task must exist and the
/// caller needs its workstream's role in the business unit of its project
/// (`project`). When its effective end moved later, the slip is propagated
/// forward to its dependents (see `propagate_shift`), and the moved tasks
/// that have neither started nor finished are reported for notification.
pub fn update_schedule_task_dates(
    tasks: Vec<ScheduleTask>,
    edges: &Vec<Dependency>,
    task_id: u128,
    dates: ScheduleDates,
    project: Option<Project>,
    assignments: &Vec<RoleAssignment>,
    user_id: u128,
) -> (r: Result<DateUpdate, ApiError>)
    requires
        ids_unique(tasks@),
        has_task(tasks@, task_id) ==> (slip_days(tasks@[task_index(tasks@, task_id)].dates, dates) matches Some(
            delta,
        ) ==> forall|k: int|
            0 <= k < tasks@.len() && tasks@[k].id != task_id && is_dependent(edges@, tasks@[k].id) ==> shift_in_range(
                #[trigger] tasks@[k],
                delta,
            )),
    ensures
        !has_task(tasks@, task_id) ==> r == Err::<DateUpdate, ApiError>(ApiError::NotFound),
        has_task(tasks@, task_id) && project_access(
            project,
            assignments@,
            user_id,
            Some(spec_role_for_workstream(tasks@[task_index(tasks@, task_id)].workstream_type)),
        ) is Err ==> r == Err::<DateUpdate, ApiError>(
            project_access(
                project,
                assignments@,
                user_id,
                Some(spec_role_for_workstream(tasks@[task_index(tasks@, task_id)].workstream_type)),
            )->Err_0,
        ),
        has_task(tasks@, task_id) && project_access(
            project,
            assignments@,
            user_id,
            Some(spec_role_for_workstream(tasks@[task_index(tasks@, task_id)].workstream_type)),
        ) is Ok ==> {
            let k = task_index(tasks@, task_id);
            let updated = ScheduleTask { dates, ..tasks@[k] };
            let after = tasks@.update(k, updated);
            match slip_days(tasks@[k].dates, dates) {
                None => r matches Ok(u) && u.tasks@ == after && u.task == updated && u.shifts@.len() == 0
                    && u.notify@.len() == 0,
                Some(delta) => match r {
                    Ok(u) => {
                        &&& u.task == updated
                        &&& u.notify@ == notices(u.tasks@, u.shifts@)
                        &&& forall|j: int|
                            0 <= j < u.notify@.len() ==> u.tasks@[task_index(u.tasks@, #[trigger] u.notify@[j])].status
                                != TaskStatus::Done && u.tasks@[task_index(u.tasks@, u.notify@[j])].dates.actual_start_date is None
                        &&& moved_exactly(after, u.tasks@, u.shifts@, delta)
                        &&& shifts_follow_edges(edges@, task_id, u.shifts@)
                        &&& shifts_were_needed(after, u.tasks@, u.shifts@)
                        &&& dependents_handled(after, u.tasks@, edges@, task_id, u.shifts@)
                        &&& exists|n: nat, s: ShiftState|
                            #![trigger shift_run(shift_start(after, task_id), edges@, delta, n), s.shifts]
                            shift_run(shift_start(after, task_id), edges@, delta, n) == Some(
                                Ok::<ShiftState, ApiError>(s),
                            ) && s.tasks == u.tasks@ && s.shifts == u.shifts@
                    },
                    Err(e) => exists|n: nat|
                        #[trigger] shift_run(shift_start(after, task_id), edges@, delta, n) == Some(
                            Err::<ShiftState, ApiError>(e),
                        ),
                },
            }
        },
{
    let k = match find_task(&tasks, task_id) {
        None => return Err(ApiError::NotFound),
        Some(k) => k,
    };
    let existing = tasks[k];
    match authorize_project(project, assignments, user_id, Some(role_for_workstream(existing.workstream_type))) {
        Err(e) => return Err(e),
        Ok(_) => {},
    }
    let old_end = effective_end(&existing.dates);
    let updated = ScheduleTask { dates, ..existing };
    let mut work = tasks;
    work.set(k, updated);
    let ghost after = work@;
    proof {
        assert forall|a: int, b: int| 0 <= a < work@.len() && 0 <= b < work@.len() && a != b implies work@[a].id
            != work@[b].id by {
            assert(work@[a].id == tasks@[a].id);
            assert(work@[b].id == tasks@[b].id);
        }
    }
    let new_end = effective_end(&dates);
    let slip: Option<i64> = match (old_end, new_end) {
        (Some(o), Some(n)) => if n > o {
            Some(days_between(n, o))
        } else {
            None
        },
        _ => None,
    };
    match slip {
        None => Ok(DateUpdate { tasks: work, task: updated, shifts: Vec::new(), notify: Vec::new() }),
        Some(delta_days) => {
            proof {
                assert forall|m: int|
                    0 <= m < work@.len() && work@[m].id != task_id && is_dependent(edges@, work@[m].id) implies shift_in_range(
                    #[trigger] work@[m],
                    delta_days as int,
                ) by {
                    assert(work@[m] == tasks@[m]);
                }
            }
            let out = propagate_shift(work, edges, task_id, delta_days);
            match out {
                Err(e) => Err(e),
                Ok(o) => {
                    proof {
                        lemma_same_ids(after, o.tasks@, o.shifts@, delta_days as int, task_id);
                        assert(o.tasks@[k as int] == after[k as int]) by {
                            assert(after[k as int].id == task_id);
                            if shifted_ids(o.shifts@).contains(task_id) {
                            }
                        }
                        assert forall|a: int, b: int|
                            0 <= a < o.tasks@.len() && 0 <= b < o.tasks@.len() && a != b implies o.tasks@[a].id
                            != o.tasks@[b].id by {
                            assert(o.tasks@[a].id == after[a].id);
                            assert(o.tasks@[b].id == after[b].id);
                        }
                        assert forall|j: int| 0 <= j < o.shifts@.len() implies has_task(
                            o.tasks@,
                            #[trigger] o.shifts@[j].task_id,
                        ) by {
                            assert(shifted_ids(o.shifts@)[j] == o.shifts@[j].task_id);
                            let id = o.shifts@[j].task_id;
                            lemma_same_ids(after, o.tasks@, o.shifts@, delta_days as int, id);
                        }
                    }
                    let notify = pending_notices(&o.tasks, &o.shifts);
                    proof {
                        lemma_notices_skip_done_and_started(o.tasks@, o.shifts@);
                    }
                    let task = o.tasks[k];
                    Ok(DateUpdate { tasks: o.tasks, task, shifts: o.shifts, notify })
                },
            }
        },
    }
}


/// A request for a schedule task.
pub struct CreateScheduleTaskRequest {
    pub title: String,
    pub workstream_type: WorkstreamType,
}

/// No dates planned or recorded yet.
pub open spec fn no_dates() -> ScheduleDates {
    ScheduleDates {
        planned_start_date: None,
        planned_end_date: None,
        actual_start_date: None,
        actual_end_date: None,
    }
}

/// A new schedule task and its title.
pub struct NewScheduleTask {
    pub task: ScheduleTask,
    pub title: String,
}

/// Creates a schedule task with the given fresh id: the title must not be
/// blank and the caller needs the role of the task's workstream in the
/// project's business unit. A new task carries the requested title, is not
/// started, has no dates and tracks no site task.
pub fn create_schedule_task(
    req: &CreateScheduleTaskRequest,
    project: Option<Project>,
    enabled_workstreams: &Vec<WorkstreamType>,
    assignments: &Vec<RoleAssignment>,
    user_id: u128,
    id: u128,
) -> (r: Result<NewScheduleTask, ApiError>)
    ensures
        blank(req.title@) ==> (r matches Err(e) && e == ApiError::BadRequest(BadRequest::TitleRequired)),
        !blank(req.title@) ==> match project_workstream_access(
            project,
            assignments@,
            user_id,
            Some(spec_role_for_workstream(req.workstream_type)),
            enabled_workstreams@,
            req.workstream_type,
        ) {
            Err(e) => r matches Err(e2) && e2 == e,
            Ok(p) => r matches Ok(n) && n.title@ == req.title@ && n.task == (ScheduleTask {
                id,
                project_id: p.id,
                workstream_type: req.workstream_type,
                status: TaskStatus::NotStarted,
                dates: no_dates(),
                site_task_id: None,
            }),
        },
{
    if is_blank(req.title.as_str()) {
        return Err(ApiError::BadRequest(BadRequest::TitleRequired));
    }
    let role = role_for_workstream(req.workstream_type);
    match authorize_project_workstream(project, assignments, user_id, Some(role), enabled_workstreams, req.workstream_type) {
        Err(e) => Err(e),
        Ok(p) => Ok(
            NewScheduleTask {
                task: ScheduleTask {
                    id,
                    project_id: p.id,
                    workstream_type: req.workstream_type,
                    status: TaskStatus::NotStarted,
                    dates: ScheduleDates {
                        planned_start_date: None,
                        planned_end_date: None,
                        actual_start_date: None,
                        actual_end_date: None,
                    },
                    site_task_id: None,
                },
                title: req.title.clone(),
            },
        ),
    }
}

/// A requested task status.
pub struct UpdateScheduleTaskStatusRequest {
    pub status: String,
}

/// Sets a schedule task's status: the status must be a known one (checked
/// first), the task must exist (`task`; `project` is its project) and the
/// caller needs its workstream's role in the project's business unit.
pub fn update_schedule_task_status(
    req: &UpdateScheduleTaskStatusRequest,
    task: Option<ScheduleTask>,
    project: Option<Project>,
    assignments: &Vec<RoleAssignment>,
    user_id: u128,
) -> (r: Result<ScheduleTask, ApiError>)
    ensures
        r == (match spec_parse_task_status(req.status@) {
            None => Err(ApiError::BadRequest(BadRequest::InvalidStatus)),
            Some(st) => match task {
                None => Err(ApiError::NotFound),
                Some(t) => match project_access(project, assignments@, user_id, Some(spec_role_for_workstream(t.workstream_type))) {
                    Err(e) => Err(e),
                    Ok(_) => Ok(ScheduleTask { status: st, ..t }),
                },
            },
        }),
        r is Ok ==> {
            let u = r->Ok_0;
            &&& u == ScheduleTask { status: u.status, ..task.unwrap() }
            &&& (u.status == TaskStatus::NotStarted <==> req.status@ == "not_started"@)
            &&& (u.status == TaskStatus::InProgress <==> req.status@ == "in_progress"@)
            &&& (u.status == TaskStatus::Done <==> req.status@ == "done"@)
        },
{
    proof {
        lemma_task_status_names(req.status@);
    }
    let st = match TaskStatus::parse(req.status.as_str()) {
        None => return Err(ApiError::BadRequest(BadRequest::InvalidStatus)),
        Some(st) => st,
    };
    let t = match task {
        None => return Err(ApiError::NotFound),
        Some(t) => t,
    };
    match authorize_project(project, assignments, user_id, Some(role_for_workstream(t.workstream_type))) {
        Err(e) => Err(e),
        Ok(_) => Ok(ScheduleTask { status: st, ..t }),
    }
}

/// A request for a dependency of a schedule task on another.
pub struct AddScheduleDependencyRequest {
    pub depends_on_task_id: u128,
}

/// What adding the dependency `task_id -> depends_on_task_id` decides, in
/// the order the checks are made: no self-dependency; the task must exist
/// (`NotFound`) and so must the task it depends on; both belong to one
/// project; the caller needs the task's workstream role in that project's
/// business unit (`project` is the task's project); and the edge must not
/// close a cycle.
pub open spec fn dependency_outcome(
    tasks: Seq<ScheduleTask>,
    edges: Seq<Dependency>,
    project: Option<Project>,
    assignments: Seq<RoleAssignment>,
    user_id: u128,
    task_id: u128,
    depends_on_task_id: u128,
) -> Result<Dependency, ApiError> {
    if task_id == depends_on_task_id {
        Err(ApiError::BadRequest(BadRequest::SelfDependency))
    } else {
        match find_by_key(tasks, task_id) {
            None => Err(ApiError::NotFound),
            Some(t) => match find_by_key(tasks, depends_on_task_id) {
                None => Err(ApiError::BadRequest(BadRequest::DependencyNotFound)),
                Some(d) => if t.project_id != d.project_id {
                    Err(ApiError::BadRequest(BadRequest::CrossProjectDependency))
                } else {
                    match project_access(project, assignments, user_id, Some(spec_role_for_workstream(t.workstream_type))) {
                        Err(e) => Err(e),
                        Ok(_) => if reaches(edges, depends_on_task_id, task_id) {
                            Err(ApiError::BadRequest(BadRequest::DependencyCycle))
                        } else {
                            Ok(Dependency { task_id, depends_on_task_id })
                        },
                    }
                },
            },
        }
    }
}

/// Adds a dependency between two schedule tasks of a project; see
/// `dependency_outcome`. `tasks` are the tenant's schedule tasks and
/// `edges` its dependency graph.
pub fn add_schedule_task_dependency(
    tasks: &Vec<ScheduleTask>,
    edges: &Vec<Dependency>,
    project: Option<Project>,
    assignments: &Vec<RoleAssignment>,
    user_id: u128,
    task_id: u128,
    req: &AddScheduleDependencyRequest,
) -> (r: Result<Dependency, ApiError>)
    ensures
        r == dependency_outcome(tasks@, edges@, project, assignments@, user_id, task_id, req.depends_on_task_id),
{
    let depends_on_task_id = req.depends_on_task_id;
    if task_id == depends_on_task_id {
        return Err(ApiError::BadRequest(BadRequest::SelfDependency));
    }
    proof {
        lemma_position_of(tasks@, task_id);
        lemma_position_of(tasks@, depends_on_task_id);
    }
    let t = match index_of_id(tasks, task_id) {
        None => return Err(ApiError::NotFound),
        Some(i) => tasks[i],
    };
    let d = match index_of_id(tasks, depends_on_task_id) {
        None => return Err(ApiError::BadRequest(BadRequest::DependencyNotFound)),
        Some(i) => tasks[i],
    };
    if t.project_id != d.project_id {
        return Err(ApiError::BadRequest(BadRequest::CrossProjectDependency));
    }
    match authorize_project(project, assignments, user_id, Some(role_for_workstream(t.workstream_type))) {
        Err(e) => return Err(e),
        Ok(_) => {},
    }
    if would_create_cycle(edges, task_id, depends_on_task_id) {
        return Err(ApiError::BadRequest(BadRequest::DependencyCycle));
    }
    Ok(Dependency { task_id, depends_on_task_id })
}

/// Law: the dependency graph stays acyclic: an edge the rules accept never
/// closes a cycle.
pub proof fn lemma_accepted_dependency_keeps_acyclic(
    tasks: Seq<ScheduleTask>,
    edges: Seq<Dependency>,
    project: Option<Project>,
    assignments: Seq<RoleAssignment>,
    user_id: u128,
    task_id: u128,
    depends_on_task_id: u128,
)
    requires
        acyclic(edges),
        dependency_outcome(tasks, edges, project, assignments, user_id, task_id, depends_on_task_id) is Ok,
    ensures
        acyclic(
            edges.push(
                dependency_outcome(tasks, edges, project, assignments, user_id, task_id, depends_on_task_id)->Ok_0,
            ),
        ),
{
    lemma_insert_keeps_acyclic(edges, task_id, depends_on_task_id);
}

} // verus!
