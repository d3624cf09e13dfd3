use api::authz::RoleAssignment;
use api::dates::{days_between, shift_day, MAX_DAY, MIN_DAY};
use api::dependency_graph::{would_create_cycle, Dependency};
use api::error::{ApiError, BadRequest};
use api::project::{BillingMethod, Project};
use api::schedule::{
    add_schedule_task_dependency, create_schedule_task, propagate_shift, update_schedule_task_dates,
    update_schedule_task_status, AddScheduleDependencyRequest, CreateScheduleTaskRequest, Role, ScheduleDates,
    ScheduleTask, TaskStatus, UpdateScheduleTaskStatusRequest, WorkstreamType,
};
use chrono::{Datelike, NaiveDate};

const USER: u128 = 7;
const BU: u128 = 100;

fn day(y: i32, m: u32, d: u32) -> i32 {
    NaiveDate::from_ymd_opt(y, m, d).unwrap().num_days_from_ce()
}

fn project() -> Project {
    Project { id: 1, business_unit_id: BU, client_id: 9, billing_method: BillingMethod::Milestone }
}

fn delivery() -> Vec<RoleAssignment> {
    vec![RoleAssignment { user_id: USER, business_unit_id: BU, role: Role::Delivery }]
}

fn no_dates() -> ScheduleDates {
    ScheduleDates { planned_start_date: None, planned_end_date: None, actual_start_date: None, actual_end_date: None }
}

fn task(id: u128, start: i32, end: i32) -> ScheduleTask {
    ScheduleTask {
        id,
        project_id: 1,
        workstream_type: WorkstreamType::SiteExecution,
        status: TaskStatus::NotStarted,
        dates: ScheduleDates {
            planned_start_date: Some(start),
            planned_end_date: Some(end),
            actual_start_date: None,
            actual_end_date: None,
        },
        site_task_id: None,
    }
}

fn edge(task_id: u128, depends_on_task_id: u128) -> Dependency {
    Dependency { task_id, depends_on_task_id }
}

#[test]
fn schedule_task_date_shift_propagates_conditionally_to_dependents() {
    let (a, b, c) = (1u128, 2u128, 3u128);
    let tasks = vec![
        task(a, day(2026, 9, 1), day(2026, 9, 5)),
        task(b, day(2026, 9, 6), day(2026, 9, 10)),
        task(c, day(2026, 9, 20), day(2026, 9, 25)),
    ];
    let edges = vec![edge(b, a), edge(c, b)];
    let slip = ScheduleDates {
        planned_start_date: Some(day(2026, 9, 1)),
        planned_end_date: Some(day(2026, 9, 5)),
        actual_start_date: Some(day(2026, 9, 1)),
        actual_end_date: Some(day(2026, 9, 10)),
    };
    let u = update_schedule_task_dates(tasks, &edges, a, slip, Some(project()), &delivery(), USER).unwrap();
    let shifted: Vec<u128> = u.shifts.iter().map(|s| s.task_id).collect();
    assert_eq!(shifted, vec![b]);
    assert_eq!(u.tasks[1].dates.planned_start_date, Some(day(2026, 9, 11)));
    assert_eq!(u.tasks[1].dates.planned_end_date, Some(day(2026, 9, 15)));
    assert_eq!(u.tasks[2].dates.planned_start_date, Some(day(2026, 9, 20)));
    assert_eq!(u.tasks[2].dates.planned_end_date, Some(day(2026, 9, 25)));
    assert_eq!(u.notify, vec![b]);
}

#[test]
fn already_started_schedule_task_shift_does_not_notify() {
    let (a, b) = (1u128, 2u128);
    let mut started = task(b, day(2026, 12, 6), day(2026, 12, 10));
    started.dates.actual_start_date = Some(day(2026, 12, 6));
    let tasks = vec![task(a, day(2026, 12, 1), day(2026, 12, 5)), started];
    let slip = ScheduleDates {
        planned_start_date: Some(day(2026, 12, 1)),
        planned_end_date: Some(day(2026, 12, 5)),
        actual_start_date: Some(day(2026, 12, 1)),
        actual_end_date: Some(day(2026, 12, 8)),
    };
    let u = update_schedule_task_dates(tasks, &vec![edge(b, a)], a, slip, Some(project()), &delivery(), USER).unwrap();
    assert_eq!(u.shifts.len(), 1);
    assert!(u.notify.is_empty());
}

#[test]
fn earlier_or_unchanged_end_does_not_propagate() {
    let (a, b) = (1u128, 2u128);
    let tasks = vec![task(a, day(2026, 9, 1), day(2026, 9, 5)), task(b, day(2026, 9, 6), day(2026, 9, 10))];
    let earlier = ScheduleDates {
        planned_start_date: Some(day(2026, 9, 1)),
        planned_end_date: Some(day(2026, 9, 4)),
        actual_start_date: None,
        actual_end_date: None,
    };
    let u = update_schedule_task_dates(tasks, &vec![edge(b, a)], a, earlier, Some(project()), &delivery(), USER).unwrap();
    assert!(u.shifts.is_empty());
    assert_eq!(u.task.dates.planned_end_date, Some(day(2026, 9, 4)));
}

#[test]
fn date_update_refusals() {
    let tasks = vec![task(1, day(2026, 9, 1), day(2026, 9, 5))];
    let r = update_schedule_task_dates(tasks.clone(), &vec![], 99, no_dates(), Some(project()), &delivery(), USER);
    assert_eq!(r.err(), Some(ApiError::NotFound));
    let r = update_schedule_task_dates(tasks, &vec![], 1, no_dates(), Some(project()), &vec![], USER);
    assert_eq!(r.err(), Some(ApiError::Forbidden));
}

#[test]
fn forward_pass_moves_a_chain_without_slack() {
    let tasks = vec![task(1, 100, 110), task(2, 111, 120), task(3, 121, 130)];
    let edges = vec![edge(2, 1), edge(3, 2)];
    let mut moved = tasks.clone();
    moved[0].dates.planned_end_date = Some(115);
    let out = propagate_shift(moved, &edges, 1, 5).unwrap();
    assert_eq!(out.tasks[1].dates.planned_start_date, Some(116));
    assert_eq!(out.tasks[2].dates.planned_start_date, Some(126));
    assert_eq!(out.shifts.len(), 2);
    assert_eq!(out.shifts[1].precedent_id, 2);
}

#[test]
fn schedule_task_dependency_cycle_rejected() {
    let tasks = vec![task(1, 1, 2), task(2, 1, 2), task(3, 1, 2), task(4, 1, 2)];
    let edges = vec![edge(1, 2), edge(2, 3)];
    assert!(would_create_cycle(&edges, 3, 1));
    assert!(!would_create_cycle(&edges, 3, 4));
    let r = add_schedule_task_dependency(&tasks, &edges, Some(project()), &delivery(), USER, 3, &AddScheduleDependencyRequest {
        depends_on_task_id: 1,
    });
    assert_eq!(r.err(), Some(ApiError::BadRequest(BadRequest::DependencyCycle)));
    let ok = add_schedule_task_dependency(&tasks, &edges, Some(project()), &delivery(), USER, 3, &AddScheduleDependencyRequest {
        depends_on_task_id: 4,
    });
    assert_eq!(ok.unwrap(), edge(3, 4));
}

#[test]
fn schedule_task_dependency_self_and_cross_project_rejected() {
    let mut other = task(2, 1, 2);
    other.project_id = 2;
    let tasks = vec![task(1, 1, 2), other];
    let self_dep = add_schedule_task_dependency(&tasks, &vec![], Some(project()), &delivery(), USER, 1, &AddScheduleDependencyRequest {
        depends_on_task_id: 1,
    });
    assert_eq!(self_dep.err(), Some(ApiError::BadRequest(BadRequest::SelfDependency)));
    let cross = add_schedule_task_dependency(&tasks, &vec![], Some(project()), &delivery(), USER, 1, &AddScheduleDependencyRequest {
        depends_on_task_id: 2,
    });
    assert_eq!(cross.err(), Some(ApiError::BadRequest(BadRequest::CrossProjectDependency)));
    let missing = add_schedule_task_dependency(&tasks, &vec![], Some(project()), &delivery(), USER, 1, &AddScheduleDependencyRequest {
        depends_on_task_id: 3,
    });
    assert_eq!(missing.err(), Some(ApiError::BadRequest(BadRequest::DependencyNotFound)));
}

#[test]
fn standalone_schedule_task_create_and_status_lifecycle() {
    let t = create_schedule_task(
        &CreateScheduleTaskRequest { title: String::from("Order hardware"), workstream_type: WorkstreamType::Procurement },
        Some(project()),
        &vec![WorkstreamType::Procurement],
        &delivery(),
        USER,
        5,
    )
    .unwrap();
    assert_eq!(t.title, "Order hardware");
    assert_eq!(t.task.site_task_id, None);
    let t = t.task;
    assert_eq!(t.status, TaskStatus::NotStarted);
    assert_eq!(t.workstream_type, WorkstreamType::Procurement);
    let bad = update_schedule_task_status(&UpdateScheduleTaskStatusRequest { status: String::from("paused") }, Some(t), Some(project()), &delivery(), USER);
    assert_eq!(bad.err(), Some(ApiError::BadRequest(BadRequest::InvalidStatus)));
    let going = update_schedule_task_status(&UpdateScheduleTaskStatusRequest { status: String::from("in_progress") }, Some(t), Some(project()), &delivery(), USER)
        .unwrap();
    assert_eq!(going.status, TaskStatus::InProgress);
    let design = create_schedule_task(
        &CreateScheduleTaskRequest { title: String::from("Moodboard"), workstream_type: WorkstreamType::Design },
        Some(project()),
        &vec![WorkstreamType::Design],
        &delivery(),
        USER,
        6,
    );
    assert_eq!(design.err(), Some(ApiError::Forbidden));
}

#[test]
fn day_arithmetic_at_calendar_edges() {
    assert_eq!(shift_day(day(2026, 9, 6), 5), Some(day(2026, 9, 11)));
    assert_eq!(shift_day(day(2024, 2, 28), 1), Some(day(2024, 2, 29)));
    assert_eq!(shift_day(MAX_DAY, 1), None);
    assert_eq!(shift_day(MIN_DAY, -1), None);
    assert_eq!(shift_day(MAX_DAY, 0), Some(MAX_DAY));
    assert_eq!(days_between(day(2026, 9, 10), day(2026, 9, 5)), 5);
    assert_eq!(NaiveDate::from_num_days_from_ce_opt(MAX_DAY).map(|d| d.year()), Some(262142));
}

#[test]
fn forward_pass_considers_a_dependent_once() {
    let tasks = vec![task(1, 100, 110), task(2, 112, 116), task(3, 113, 125), task(4, 122, 140)];
    let edges = vec![edge(2, 1), edge(3, 1), edge(4, 2), edge(4, 3)];
    let mut moved = tasks.clone();
    moved[0].dates.planned_end_date = Some(115);
    let out = propagate_shift(moved, &edges, 1, 5).unwrap();
    assert_eq!(out.tasks[1].dates.planned_end_date, Some(121));
    assert_eq!(out.tasks[2].dates.planned_end_date, Some(130));
    assert_eq!(out.tasks[3].dates.planned_start_date, Some(122));
    assert_eq!(out.shifts.len(), 2);
}
