//! Change orders: a proposed change to a project's approved quotation (lines
//! added, modified or removed, workstreams to enable, schedule tasks to
//! stage), its cost impact, the client's decision, and the re-baselined
//! quotation an approval produces.
use vstd::prelude::*;
use crate::authz::{authorize_project, holds_role, project_access, require_project_business_unit_role, RoleAssignment};
use crate::decimal::{
    decimal_difference, decimal_product, decimal_sum, diff_exact, diff_fits, lemma_units_diff, lemma_units_sum,
    prod_exact, prod_fits, sum_exact, sum_fits, units, Dec, DecView,
};
use crate::error::{ApiError, BadRequest};
use crate::lookup::{find_by_key, index_of_id, lemma_position_of, position_of, Keyed};
use crate::project::Project;
use crate::quotations::{line_error, check_line, Quotation, QuotationLineItem, QuotationStatus};
use crate::schedule::{Role, ScheduleTask, WorkstreamType};
use crate::text::{blank, is_blank};

verus! {

/// One requested change to the base quotation's lines.
#[derive(Debug)]
pub struct ChangeLineItemInput {
    /// `None`: a new line (scope extension); `Some`: the base quotation line
    /// this change modifies or removes.
    pub original_line_item_id: Option<u128>,
    pub removed: bool,
    pub description: String,
    pub quantity: Dec,
    pub unit: String,
    pub unit_rate: Dec,
}

/// A schedule task a change order stages for added scope; dates are day
/// numbers.
#[derive(Debug)]
pub struct NewScheduleTaskInput {
    pub title: String,
    pub workstream_type: WorkstreamType,
    pub planned_start_date: Option<i32>,
    pub planned_end_date: Option<i32>,
    /// An existing task of the same project the staged task depends on.
    pub depends_on_existing_task_id: Option<u128>,
}

/// A proposed change order.
pub struct CreateChangeOrderRequest {
    pub base_quotation_id: u128,
    pub title: String,
    pub description: Option<String>,
    pub line_items: Vec<ChangeLineItemInput>,
    pub add_workstreams: Vec<WorkstreamType>,
    pub add_schedule_tasks: Vec<NewScheduleTaskInput>,
}

/// The first line whose quantity or rate is refused, if any.
pub open spec fn first_change_line_error(lines: Seq<ChangeLineItemInput>) -> Option<BadRequest>
    decreases lines.len(),
{
    if lines.len() == 0 {
        None
    } else {
        match first_change_line_error(lines.drop_last()) {
            Some(e) => Some(e),
            None => line_error(lines.last().quantity@, lines.last().unit_rate@),
        }
    }
}

/// Some requested workstream is already enabled on the project.
pub open spec fn workstream_already_enabled(add: Seq<WorkstreamType>, existing: Seq<WorkstreamType>) -> bool {
    exists|i: int| 0 <= i < add.len() && existing.contains(#[trigger] add[i])
}

/// Why a staged task is refused: a blank title, or a dependency that is not
/// an existing task of the project.
pub open spec fn staged_error(staged: NewScheduleTaskInput, tasks: Seq<ScheduleTask>, project_id: u128) -> Option<
    BadRequest,
> {
    if blank(staged.title@) {
        Some(BadRequest::StagedTaskTitleRequired)
    } else {
        match staged.depends_on_existing_task_id {
            None => None,
            Some(dep) => match find_by_key(tasks, dep) {
                None => Some(BadRequest::StagedDependencyNotFound),
                Some(t) => if t.project_id != project_id {
                    Some(BadRequest::StagedDependencyOfOtherProject)
                } else {
                    None
                },
            },
        }
    }
}

/// The first refused staged task, if any.
pub open spec fn first_staged_error(staged: Seq<NewScheduleTaskInput>, tasks: Seq<ScheduleTask>, project_id: u128) -> Option<
    BadRequest,
>
    decreases staged.len(),
{
    if staged.len() == 0 {
        None
    } else {
        match first_staged_error(staged.drop_last(), tasks, project_id) {
            Some(e) => Some(e),
            None => staged_error(staged.last(), tasks, project_id),
        }
    }
}

/// The cost change one requested line makes, or why it is refused: a new
/// line adds its amount (quantity * rate); a modified line adds its amount
/// less the original line's; a removed line subtracts the original line's.
/// The original line must exist and belong to the base quotation. Amounts
/// are `rust_decimal`'s results (`decimal_product`, `decimal_difference`).
pub open spec fn line_delta(li: ChangeLineItemInput, base_quotation_id: u128, all_lines: Seq<QuotationLineItem>) -> Result<
    DecView,
    BadRequest,
> {
    match decimal_product(li.quantity@, li.unit_rate@) {
        None => Err(BadRequest::AmountOutOfRange),
        Some(amount) => match li.original_line_item_id {
            None => Ok(amount),
            Some(oid) => match find_by_key(all_lines, oid) {
                None => Err(BadRequest::OriginalLineNotFound),
                Some(orig) => if orig.quotation_id != base_quotation_id {
                    Err(BadRequest::OriginalLineOfOtherQuotation)
                } else if li.removed {
                    Ok(DecView { mantissa: -orig.amount@.mantissa, scale: orig.amount@.scale })
                } else {
                    match decimal_difference(amount, orig.amount@) {
                        None => Err(BadRequest::AmountOutOfRange),
                        Some(d) => Ok(d),
                    }
                },
            },
        },
    }
}

/// The total cost impact of the requested lines, summed in order from zero
/// by `rust_decimal` (`decimal_sum`), or the first refusal.
pub open spec fn cost_impact(lines: Seq<ChangeLineItemInput>, base_quotation_id: u128, all_lines: Seq<QuotationLineItem>) -> Result<
    DecView,
    BadRequest,
>
    decreases lines.len(),
{
    if lines.len() == 0 {
        Ok(DecView { mantissa: 0, scale: 0 })
    } else {
        match cost_impact(lines.drop_last(), base_quotation_id, all_lines) {
            Err(e) => Err(e),
            Ok(acc) => match line_delta(lines.last(), base_quotation_id, all_lines) {
                Err(e) => Err(e),
                Ok(d) => match decimal_sum(acc, d) {
                    None => Err(BadRequest::AmountOutOfRange),
                    Some(x) => Ok(x),
                },
            },
        }
    }
}

/// `line_delta` in exact arithmetic: `Ok` only where no step loses a
/// digit; where it is `Ok`, the computed change equals it.
pub open spec fn exact_line_delta(li: ChangeLineItemInput, base_quotation_id: u128, all_lines: Seq<QuotationLineItem>) -> Result<
    DecView,
    BadRequest,
> {
    if !prod_fits(li.quantity@, li.unit_rate@) {
        Err(BadRequest::AmountOutOfRange)
    } else {
        let amount = prod_exact(li.quantity@, li.unit_rate@);
        match li.original_line_item_id {
            None => Ok(amount),
            Some(oid) => match find_by_key(all_lines, oid) {
                None => Err(BadRequest::OriginalLineNotFound),
                Some(orig) => if orig.quotation_id != base_quotation_id {
                    Err(BadRequest::OriginalLineOfOtherQuotation)
                } else if li.removed {
                    Ok(DecView { mantissa: -orig.amount@.mantissa, scale: orig.amount@.scale })
                } else if !diff_fits(amount, orig.amount@) {
                    Err(BadRequest::AmountOutOfRange)
                } else {
                    Ok(diff_exact(amount, orig.amount@))
                },
            },
        }
    }
}

/// `cost_impact` in exact arithmetic: `Ok` only where no step loses a
/// digit; where it is `Ok`, the computed cost impact equals it.
pub open spec fn exact_cost_impact(lines: Seq<ChangeLineItemInput>, base_quotation_id: u128, all_lines: Seq<QuotationLineItem>) -> Result<
    DecView,
    BadRequest,
>
    decreases lines.len(),
{
    if lines.len() == 0 {
        Ok(DecView { mantissa: 0, scale: 0 })
    } else {
        match exact_cost_impact(lines.drop_last(), base_quotation_id, all_lines) {
            Err(e) => Err(e),
            Ok(acc) => match exact_line_delta(lines.last(), base_quotation_id, all_lines) {
                Err(e) => Err(e),
                Ok(d) => if sum_fits(acc, d) {
                    Ok(sum_exact(acc, d))
                } else {
                    Err(BadRequest::AmountOutOfRange)
                },
            },
        }
    }
}

/// The checks a change order proposal passes, in order, and its cost impact.
pub open spec fn change_order_outcome(
    req: CreateChangeOrderRequest,
    assignments: Seq<RoleAssignment>,
    user_id: u128,
    project: Option<Project>,
    existing_workstreams: Seq<WorkstreamType>,
    tasks: Seq<ScheduleTask>,
    quotations: Seq<Quotation>,
    all_lines: Seq<QuotationLineItem>,
) -> Result<DecView, ApiError> {
    if blank(req.title@) {
        Err(ApiError::BadRequest(BadRequest::TitleRequired))
    } else if req.line_items@.len() == 0 && req.add_workstreams@.len() == 0 && req.add_schedule_tasks@.len() == 0 {
        Err(ApiError::BadRequest(BadRequest::AtLeastOneChange))
    } else if first_change_line_error(req.line_items@) is Some {
        Err(ApiError::BadRequest(first_change_line_error(req.line_items@).unwrap()))
    } else {
        match project {
            None => Err(ApiError::NotFound),
            Some(p) => if !holds_role(assignments, user_id, p.business_unit_id, Some(Role::SalesDesign)) {
                Err(ApiError::Forbidden)
            } else if workstream_already_enabled(req.add_workstreams@, existing_workstreams) {
                Err(ApiError::BadRequest(BadRequest::WorkstreamAlreadyEnabled))
            } else if first_staged_error(req.add_schedule_tasks@, tasks, p.id) is Some {
                Err(ApiError::BadRequest(first_staged_error(req.add_schedule_tasks@, tasks, p.id).unwrap()))
            } else {
                match find_by_key(quotations, req.base_quotation_id) {
                    None => Err(ApiError::BadRequest(BadRequest::BaseQuotationNotFound)),
                    Some(q) => if q.project_id != p.id {
                        Err(ApiError::BadRequest(BadRequest::BaseQuotationOfOtherProject))
                    } else if q.status != QuotationStatus::Approved {
                        Err(ApiError::BadRequest(BadRequest::BaseQuotationNotApproved))
                    } else {
                        match cost_impact(req.line_items@, req.base_quotation_id, all_lines) {
                            Err(e) => Err(ApiError::BadRequest(e)),
                            Ok(c) => Ok(c),
                        }
                    },
                }
            },
        }
    }
}

/// A change order proposal, as recorded: its cost impact and each line's
/// amount (quantity * rate, as `rust_decimal` computes it), in request order, its status (awaiting the
/// client's approval), the re-baselined quotation (none yet) and who
/// requested it.
pub struct ChangeOrderPlan {
    pub cost_impact: Dec,
    pub line_amounts: Vec<Dec>,
    pub status: ChangeOrderStatus,
    pub new_quotation_id: Option<u128>,
    pub requested_by: u128,
}

fn bad(reason: BadRequest) -> (r: ApiError)
    ensures
        r == ApiError::BadRequest(reason),
{
    ApiError::BadRequest(reason)
}

proof fn lemma_first_line_error_prefix(lines: Seq<ChangeLineItemInput>, n: int)
    requires
        0 <= n <= lines.len(),
        first_change_line_error(lines.take(n)) is Some,
    ensures
        first_change_line_error(lines) == first_change_line_error(lines.take(n)),
    decreases lines.len() - n,
{
    if n < lines.len() {
        assert(lines.take(n + 1).drop_last() =~= lines.take(n));
        lemma_first_line_error_prefix(lines, n + 1);
    } else {
        assert(lines.take(n) =~= lines);
    }
}

proof fn lemma_first_staged_error_prefix(
    staged: Seq<NewScheduleTaskInput>,
    tasks: Seq<ScheduleTask>,
    project_id: u128,
    n: int,
)
    requires
        0 <= n <= staged.len(),
        first_staged_error(staged.take(n), tasks, project_id) is Some,
    ensures
        first_staged_error(staged, tasks, project_id) == first_staged_error(staged.take(n), tasks, project_id),
    decreases staged.len() - n,
{
    if n < staged.len() {
        assert(staged.take(n + 1).drop_last() =~= staged.take(n));
        lemma_first_staged_error_prefix(staged, tasks, project_id, n + 1);
    } else {
        assert(staged.take(n) =~= staged);
    }
}

proof fn lemma_cost_error_prefix(lines: Seq<ChangeLineItemInput>, base: u128, all_lines: Seq<QuotationLineItem>, n: int)
    requires
        0 <= n <= lines.len(),
        cost_impact(lines.take(n), base, all_lines) is Err,
    ensures
        cost_impact(lines, base, all_lines) == cost_impact(lines.take(n), base, all_lines),
    decreases lines.len() - n,
{
    if n < lines.len() {
        assert(lines.take(n + 1).drop_last() =~= lines.take(n));
        lemma_cost_error_prefix(lines, base, all_lines, n + 1);
    } else {
        assert(lines.take(n) =~= lines);
    }
}

/// Checks every requested line's quantity and rate.
fn check_change_lines(lines: &Vec<ChangeLineItemInput>) -> (r: Option<BadRequest>)
    ensures
        r == first_change_line_error(lines@),
{
    let mut i: usize = 0;
    while i < lines.len()
        invariant
            i <= lines@.len(),
            first_change_line_error(lines@.take(i as int)) is None,
        decreases lines@.len() - i,
    {
        proof {
            assert(lines@.take(i + 1).drop_last() =~= lines@.take(i as int));
        }
        match check_line(&lines[i].quantity, &lines[i].unit_rate) {
            Some(e) => {
                proof {
                    lemma_first_line_error_prefix(lines@, i + 1);
                }
                return Some(e);
            },
            None => {},
        }
        i = i + 1;
    }
    proof {
        assert(lines@.take(lines@.len() as int) =~= lines@);
    }
    None
}

/// Whether some requested workstream is already enabled.
fn any_already_enabled(add: &Vec<WorkstreamType>, existing: &Vec<WorkstreamType>) -> (r: bool)
    ensures
        r == workstream_already_enabled(add@, existing@),
{
    let mut i: usize = 0;
    while i < add.len()
        invariant
            i <= add@.len(),
            forall|j: int| 0 <= j < i ==> !existing@.contains(#[trigger] add@[j]),
        decreases add@.len() - i,
    {
        let wt = add[i];
        let mut k: usize = 0;
        while k < existing.len()
            invariant
                k <= existing@.len(),
                i < add@.len(),
                wt == add@[i as int],
                forall|m: int| 0 <= m < k ==> existing@[m] != wt,
            decreases existing@.len() - k,
        {
            if existing[k] == wt {
                proof {
                    assert(existing@[k as int] == add@[i as int]);
                    assert(existing@.contains(add@[i as int]));
                }
                return true;
            }
            k = k + 1;
        }
        i = i + 1;
    }
    false
}

/// Checks one staged task.
fn check_staged(staged: &NewScheduleTaskInput, tasks: &Vec<ScheduleTask>, project_id: u128) -> (r: Option<BadRequest>)
    ensures
        r == staged_error(*staged, tasks@, project_id),
{
    if is_blank(staged.title.as_str()) {
        return Some(BadRequest::StagedTaskTitleRequired);
    }
    match staged.depends_on_existing_task_id {
        None => None,
        Some(dep) => {
            proof {
                lemma_position_of(tasks@, dep);
            }
            match index_of_id(tasks, dep) {
                None => Some(BadRequest::StagedDependencyNotFound),
                Some(i) => if tasks[i].project_id != project_id {
                    Some(BadRequest::StagedDependencyOfOtherProject)
                } else {
                    None
                },
            }
        },
    }
}

/// Checks every staged task.
fn check_staged_tasks(staged: &Vec<NewScheduleTaskInput>, tasks: &Vec<ScheduleTask>, project_id: u128) -> (r: Option<
    BadRequest,
>)
    ensures
        r == first_staged_error(staged@, tasks@, project_id),
{
    let mut i: usize = 0;
    while i < staged.len()
        invariant
            i <= staged@.len(),
            first_staged_error(staged@.take(i as int), tasks@, project_id) is None,
        decreases staged@.len() - i,
    {
        proof {
            assert(staged@.take(i + 1).drop_last() =~= staged@.take(i as int));
        }
        match check_staged(&staged[i], tasks, project_id) {
            Some(e) => {
                proof {
                    lemma_first_staged_error_prefix(staged@, tasks@, project_id, i + 1);
                }
                return Some(e);
            },
            None => {},
        }
        i = i + 1;
    }
    proof {
        assert(staged@.take(staged@.len() as int) =~= staged@);
    }
    None
}

/// The cost change of one line; see `line_delta`. Where no step loses a
/// digit it is the exact change (`exact_line_delta`).
fn compute_line_delta(li: &ChangeLineItemInput, base_quotation_id: u128, all_lines: &Vec<QuotationLineItem>) -> (r:
    Result<Dec, BadRequest>)
    ensures
        match r {
            Ok(d) => line_delta(*li, base_quotation_id, all_lines@) == Ok::<DecView, BadRequest>(d@),
            Err(e) => line_delta(*li, base_quotation_id, all_lines@) == Err::<DecView, BadRequest>(e),
        },
        exact_line_delta(*li, base_quotation_id, all_lines@) is Ok ==> (r matches Ok(d) && d@ == exact_line_delta(
            *li,
            base_quotation_id,
            all_lines@,
        )->Ok_0),
{
    let amount = match li.quantity.rounded_mul(&li.unit_rate) {
        None => return Err(BadRequest::AmountOutOfRange),
        Some(a) => a,
    };
    match li.original_line_item_id {
        None => Ok(amount),
        Some(oid) => {
            proof {
                lemma_position_of(all_lines@, oid);
            }
            let idx = match index_of_id(all_lines, oid) {
                None => return Err(BadRequest::OriginalLineNotFound),
                Some(i) => i,
            };
            let orig = &all_lines[idx];
            if orig.quotation_id != base_quotation_id {
                return Err(BadRequest::OriginalLineOfOtherQuotation);
            }
            if li.removed {
                Ok(orig.amount.neg())
            } else {
                match amount.rounded_sub(&orig.amount) {
                    None => Err(BadRequest::AmountOutOfRange),
                    Some(d) => Ok(d),
                }
            }
        },
    }
}

/// A prefix of a proposal whose exact cost impact is computed is itself
/// computed exactly.
proof fn lemma_exact_prefix_ok(lines: Seq<ChangeLineItemInput>, base: u128, all_lines: Seq<QuotationLineItem>, n: int)
    requires
        0 <= n <= lines.len(),
        exact_cost_impact(lines, base, all_lines) is Ok,
    ensures
        exact_cost_impact(lines.take(n), base, all_lines) is Ok,
    decreases lines.len() - n,
{
    if n < lines.len() {
        lemma_exact_prefix_ok(lines, base, all_lines, n + 1);
        assert(lines.take(n + 1).drop_last() =~= lines.take(n));
    } else {
        assert(lines.take(n) =~= lines);
    }
}

/// The cost impact of the requested lines and each line's amount
/// (`rust_decimal`'s product of quantity and rate). Where no step loses a
/// digit the cost impact is the exact one.
fn compute_cost_impact(lines: &Vec<ChangeLineItemInput>, base_quotation_id: u128, all_lines: &Vec<QuotationLineItem>) -> (r:
    Result<(Dec, Vec<Dec>), BadRequest>)
    ensures
        match r {
            Ok((c, amounts)) => {
                &&& cost_impact(lines@, base_quotation_id, all_lines@) == Ok::<DecView, BadRequest>(c@)
                &&& amounts@.len() == lines@.len()
                &&& forall|j: int|
                    0 <= j < lines@.len() ==> Some((#[trigger] amounts@[j])@) == decimal_product(
                        lines@[j].quantity@,
                        lines@[j].unit_rate@,
                    )
                &&& forall|j: int|
                    0 <= j < lines@.len() && prod_fits(lines@[j].quantity@, lines@[j].unit_rate@) ==> (
                    #[trigger] amounts@[j])@ == prod_exact(lines@[j].quantity@, lines@[j].unit_rate@)
            },
            Err(e) => cost_impact(lines@, base_quotation_id, all_lines@) == Err::<DecView, BadRequest>(e),
        },
        exact_cost_impact(lines@, base_quotation_id, all_lines@) is Ok ==> (r matches Ok((c, _)) && c@
            == exact_cost_impact(lines@, base_quotation_id, all_lines@)->Ok_0),
{
    let mut acc = Dec::zero();
    let mut amounts: Vec<Dec> = Vec::new();
    let mut i: usize = 0;
    while i < lines.len()
        invariant
            i <= lines@.len(),
            cost_impact(lines@.take(i as int), base_quotation_id, all_lines@) == Ok::<DecView, BadRequest>(acc@),
            exact_cost_impact(lines@.take(i as int), base_quotation_id, all_lines@) is Ok ==> acc@
                == exact_cost_impact(lines@.take(i as int), base_quotation_id, all_lines@)->Ok_0,
            amounts@.len() == i,
            forall|j: int|
                0 <= j < i ==> Some((#[trigger] amounts@[j])@) == decimal_product(
                    lines@[j].quantity@,
                    lines@[j].unit_rate@,
                ),
            forall|j: int|
                0 <= j < i && prod_fits(lines@[j].quantity@, lines@[j].unit_rate@) ==> (#[trigger] amounts@[j])@
                    == prod_exact(lines@[j].quantity@, lines@[j].unit_rate@),
        decreases lines@.len() - i,
    {
        proof {
            assert(lines@.take(i + 1).drop_last() =~= lines@.take(i as int));
            assert(lines@.take(i + 1).last() == lines@[i as int]);
        }
        let li = &lines[i];
        let d = match compute_line_delta(li, base_quotation_id, all_lines) {
            Err(e) => {
                proof {
                    lemma_cost_error_prefix(lines@, base_quotation_id, all_lines@, i + 1);
                    if exact_cost_impact(lines@, base_quotation_id, all_lines@) is Ok {
                        lemma_exact_prefix_ok(lines@, base_quotation_id, all_lines@, i + 1);
                    }
                }
                return Err(e);
            },
            Ok(d) => d,
        };
        acc = match acc.rounded_add(&d) {
            None => {
                proof {
                    lemma_cost_error_prefix(lines@, base_quotation_id, all_lines@, i + 1);
                    if exact_cost_impact(lines@, base_quotation_id, all_lines@) is Ok {
                        lemma_exact_prefix_ok(lines@, base_quotation_id, all_lines@, i + 1);
                    }
                }
                return Err(BadRequest::AmountOutOfRange);
            },
            Some(x) => x,
        };
        let amount = li.quantity.rounded_mul(&li.unit_rate).unwrap();
        amounts.push(amount);
        i = i + 1;
    }
    proof {
        assert(lines@.take(lines@.len() as int) =~= lines@);
    }
    Ok((acc, amounts))
}

/// Plans a change order proposal against the project's approved quotation:
/// the title must not be blank; some line, workstream or staged task must
/// be requested; each line's quantity must be positive and its rate not
/// negative; the caller must hold the sales-and-design role in the project's
/// business unit; no requested workstream may already be enabled; each
/// staged task needs a title and may only depend on an existing task of the
/// project; the base quotation must exist, belong to the project and be
/// approved. The cost impact is `cost_impact`, and the exact sum of the
/// lines' changes where no step loses a digit. `existing_workstreams` are
/// the project's enabled workstreams, `tasks` the tenant's schedule tasks,
/// `quotations` and `all_lines` the tenant's quotations and their lines.
pub fn create_change_order(
    req: &CreateChangeOrderRequest,
    assignments: &Vec<RoleAssignment>,
    user_id: u128,
    project: Option<Project>,
    existing_workstreams: &Vec<WorkstreamType>,
    tasks: &Vec<ScheduleTask>,
    quotations: &Vec<Quotation>,
    all_lines: &Vec<QuotationLineItem>,
) -> (r: Result<ChangeOrderPlan, ApiError>)
    ensures
        match change_order_outcome(
            *req,
            assignments@,
            user_id,
            project,
            existing_workstreams@,
            tasks@,
            quotations@,
            all_lines@,
        ) {
            Err(e) => r == Err::<ChangeOrderPlan, ApiError>(e),
            Ok(c) => r matches Ok(plan) && plan.cost_impact@ == c && plan.status == ChangeOrderStatus::PendingClientApproval
                && plan.new_quotation_id is None && plan.requested_by == user_id
                && plan.line_amounts@.len() == req.line_items@.len()
                && forall|j: int|
                0 <= j < req.line_items@.len() ==> Some((#[trigger] plan.line_amounts@[j])@) == decimal_product(
                    req.line_items@[j].quantity@,
                    req.line_items@[j].unit_rate@,
                ) && (prod_fits(req.line_items@[j].quantity@, req.line_items@[j].unit_rate@)
                    ==> plan.line_amounts@[j]@ == prod_exact(req.line_items@[j].quantity@, req.line_items@[j].unit_rate@)),
        },
        r is Ok && exact_cost_impact(req.line_items@, req.base_quotation_id, all_lines@) is Ok ==> r->Ok_0.cost_impact@
            == exact_cost_impact(req.line_items@, req.base_quotation_id, all_lines@)->Ok_0,
{
    if is_blank(req.title.as_str()) {
        return Err(bad(BadRequest::TitleRequired));
    }
    if req.line_items.len() == 0 && req.add_workstreams.len() == 0 && req.add_schedule_tasks.len() == 0 {
        return Err(bad(BadRequest::AtLeastOneChange));
    }
    match check_change_lines(&req.line_items) {
        Some(e) => return Err(bad(e)),
        None => {},
    }
    let project_bu = match project {
        Some(p) => Some(p.business_unit_id),
        None => None,
    };
    match require_project_business_unit_role(assignments, user_id, project_bu, Some(Role::SalesDesign)) {
        Err(e) => return Err(e),
        Ok(()) => {},
    }
    let p = project.unwrap();
    if any_already_enabled(&req.add_workstreams, existing_workstreams) {
        return Err(bad(BadRequest::WorkstreamAlreadyEnabled));
    }
    match check_staged_tasks(&req.add_schedule_tasks, tasks, p.id) {
        Some(e) => return Err(bad(e)),
        None => {},
    }
    proof {
        lemma_position_of(quotations@, req.base_quotation_id);
    }
    let q = match index_of_id(quotations, req.base_quotation_id) {
        None => return Err(bad(BadRequest::BaseQuotationNotFound)),
        Some(i) => quotations[i],
    };
    if q.project_id != p.id {
        return Err(bad(BadRequest::BaseQuotationOfOtherProject));
    }
    if q.status != QuotationStatus::Approved {
        return Err(bad(BadRequest::BaseQuotationNotApproved));
    }
    match compute_cost_impact(&req.line_items, req.base_quotation_id, all_lines) {
        Err(e) => Err(bad(e)),
        Ok((cost_impact, line_amounts)) => Ok(
            ChangeOrderPlan {
                cost_impact,
                line_amounts,
                status: ChangeOrderStatus::PendingClientApproval,
                new_quotation_id: None,
                requested_by: user_id,
            },
        ),
    }
}


/// Where a change order stands.
#[derive(Clone, Copy, Debug, PartialEq, Eq, Structural)]
pub enum ChangeOrderStatus {
    PendingClientApproval,
    Approved,
    Rejected,
}

/// The fields of a recorded change order that its decision reads.
#[derive(Clone, Copy, Debug)]
pub struct ChangeOrder {
    pub id: u128,
    pub project_id: u128,
    pub base_quotation_id: u128,
    pub new_quotation_id: Option<u128>,
    pub status: ChangeOrderStatus,
    pub cost_impact: Dec,
    pub requested_by: u128,
}

/// A recorded change order line.
#[derive(Debug)]
pub struct ChangeOrderLineItem {
    pub id: u128,
    pub change_order_id: u128,
    pub original_line_item_id: Option<u128>,
    pub removed: bool,
    pub description: String,
    pub quantity: Dec,
    pub unit: String,
    pub unit_rate: Dec,
    pub amount: Dec,
}

/// A change order with its lines, workstreams and staged tasks, as returned
/// to callers.
pub struct ChangeOrderResponse {
    pub change_order: ChangeOrder,
    pub line_items: Vec<ChangeOrderLineItem>,
    pub add_workstreams: Vec<WorkstreamType>,
    pub add_schedule_tasks: Vec<NewScheduleTaskInput>,
}

/// A line of the re-baselined quotation.
#[derive(Debug)]
pub struct BaselineLine {
    pub description: String,
    pub quantity: Dec,
    pub unit: String,
    pub unit_rate: Dec,
    pub amount: Dec,
}

/// The value of a quotation line.
pub struct LineView {
    pub description: Seq<char>,
    pub quantity: DecView,
    pub unit: Seq<char>,
    pub unit_rate: DecView,
    pub amount: DecView,
}

impl BaselineLine {
    /// The line's value.
    pub open spec fn value(self) -> LineView {
        LineView {
            description: self.description@,
            quantity: self.quantity@,
            unit: self.unit@,
            unit_rate: self.unit_rate@,
            amount: self.amount@,
        }
    }
}

/// The value of a base quotation line.
pub open spec fn base_view(b: QuotationLineItem) -> LineView {
    LineView {
        description: b.description@,
        quantity: b.quantity@,
        unit: b.unit@,
        unit_rate: b.unit_rate@,
        amount: b.amount@,
    }
}

/// The value of a change order line.
pub open spec fn change_view(l: ChangeOrderLineItem) -> LineView {
    LineView {
        description: l.description@,
        quantity: l.quantity@,
        unit: l.unit@,
        unit_rate: l.unit_rate@,
        amount: l.amount@,
    }
}

/// Some change order line modifies or removes base line `id`.
pub open spec fn touched(co: Seq<ChangeOrderLineItem>, id: u128) -> bool {
    exists|j: int| 0 <= j < co.len() && (#[trigger] co[j]).original_line_item_id == Some(id)
}

/// The base lines the change order leaves alone, in order.
pub open spec fn carried(base: Seq<QuotationLineItem>, co: Seq<ChangeOrderLineItem>) -> Seq<LineView>
    decreases base.len(),
{
    if base.len() == 0 {
        Seq::empty()
    } else if touched(co, base.last().id) {
        carried(base.drop_last(), co)
    } else {
        carried(base.drop_last(), co).push(base_view(base.last()))
    }
}

/// The change order lines that are not removals, in order.
pub open spec fn added(co: Seq<ChangeOrderLineItem>) -> Seq<LineView>
    decreases co.len(),
{
    if co.len() == 0 {
        Seq::empty()
    } else if co.last().removed {
        added(co.drop_last())
    } else {
        added(co.drop_last()).push(change_view(co.last()))
    }
}

/// The lines of the re-baselined quotation: the untouched base lines, then
/// the modified and added lines.
pub open spec fn rebaselined(base: Seq<QuotationLineItem>, co: Seq<ChangeOrderLineItem>) -> Seq<LineView> {
    carried(base, co) + added(co)
}

/// What approving a change order produces.
pub struct Rebaseline {
    /// The new approved quotation, at the project's next version.
    pub quotation: Quotation,
    /// Its lines.
    pub lines: Vec<BaselineLine>,
    /// The project's other quotations, after every open or approved one is
    /// superseded.
    pub quotations: Vec<Quotation>,
}

fn base_line_copy(b: &QuotationLineItem) -> (r: BaselineLine)
    ensures
        r.value() == base_view(*b),
{
    BaselineLine {
        description: b.description.clone(),
        quantity: b.quantity,
        unit: b.unit.clone(),
        unit_rate: b.unit_rate,
        amount: b.amount,
    }
}

fn change_line_copy(l: &ChangeOrderLineItem) -> (r: BaselineLine)
    ensures
        r.value() == change_view(*l),
{
    BaselineLine {
        description: l.description.clone(),
        quantity: l.quantity,
        unit: l.unit.clone(),
        unit_rate: l.unit_rate,
        amount: l.amount,
    }
}

fn is_touched(co: &Vec<ChangeOrderLineItem>, id: u128) -> (r: bool)
    ensures
        r == touched(co@, id),
{
    let mut j: usize = 0;
    while j < co.len()
        invariant
            j <= co@.len(),
            forall|k: int| 0 <= k < j ==> (#[trigger] co@[k]).original_line_item_id != Some(id),
        decreases co@.len() - j,
    {
        if co[j].original_line_item_id == Some(id) {
            return true;
        }
        j = j + 1;
    }
    false
}

/// Builds the re-baselined quotation an approved change order produces:
/// the base lines it does not touch are carried over, then its modified and
/// added lines follow (removals are left out); the new quotation, with the
/// given fresh id, is approved at the project's next version, and every
/// other open or approved quotation of the project is superseded.
/// `base_lines` are the base quotation's lines, `co_lines` the change
/// order's lines and `quotations` the project's quotations.
pub fn apply_change_order(
    change_order: &ChangeOrder,
    co_lines: &Vec<ChangeOrderLineItem>,
    base_lines: &Vec<QuotationLineItem>,
    quotations: &Vec<Quotation>,
    new_quotation_id: u128,
) -> (r: Rebaseline)
    requires
        crate::versions::versions_below_max(quotations@, change_order.project_id),
    ensures
        r.quotation == (Quotation {
            id: new_quotation_id,
            project_id: change_order.project_id,
            version: crate::versions::next_version(quotations@, change_order.project_id) as i32,
            status: QuotationStatus::Approved,
        }),
        r.lines@.map_values(|l: BaselineLine| l.value()) == rebaselined(base_lines@, co_lines@),
        r.quotations@.len() == quotations@.len(),
        forall|i: int|
            0 <= i < quotations@.len() ==> #[trigger] r.quotations@[i] == crate::quotations::superseded_by(
                quotations@[i],
                change_order.project_id,
                new_quotation_id,
            ),
{
    let version = crate::versions::compute_next_version(quotations, change_order.project_id);
    let mut lines: Vec<BaselineLine> = Vec::new();
    let mut i: usize = 0;
    while i < base_lines.len()
        invariant
            i <= base_lines@.len(),
            lines@.map_values(|l: BaselineLine| l.value()) == carried(base_lines@.take(i as int), co_lines@),
        decreases base_lines@.len() - i,
    {
        proof {
            assert(base_lines@.take(i + 1).drop_last() =~= base_lines@.take(i as int));
            assert(base_lines@.take(i + 1).last() == base_lines@[i as int]);
        }
        if !is_touched(co_lines, base_lines[i].id) {
            let line = base_line_copy(&base_lines[i]);
            lines.push(line);
            proof {
                assert(lines@.map_values(|l: BaselineLine| l.value()) =~= carried(base_lines@.take(i + 1), co_lines@));
            }
        }
        i = i + 1;
    }
    proof {
        assert(base_lines@.take(base_lines@.len() as int) =~= base_lines@);
    }
    let ghost carried_part = lines@.map_values(|l: BaselineLine| l.value());
    let mut k: usize = 0;
    while k < co_lines.len()
        invariant
            k <= co_lines@.len(),
            carried_part == carried(base_lines@, co_lines@),
            lines@.map_values(|l: BaselineLine| l.value()) == carried_part + added(co_lines@.take(k as int)),
        decreases co_lines@.len() - k,
    {
        proof {
            assert(co_lines@.take(k + 1).drop_last() =~= co_lines@.take(k as int));
            assert(co_lines@.take(k + 1).last() == co_lines@[k as int]);
        }
        if !co_lines[k].removed {
            let line = change_line_copy(&co_lines[k]);
            lines.push(line);
            proof {
                let prev = added(co_lines@.take(k as int));
                assert(added(co_lines@.take(k + 1)) == prev.push(change_view(co_lines@[k as int])));
                assert((carried_part + prev).push(change_view(co_lines@[k as int])) =~= carried_part + prev.push(
                    change_view(co_lines@[k as int]),
                ));
                assert(lines@.map_values(|l: BaselineLine| l.value()) =~= (carried_part + prev).push(
                    change_view(co_lines@[k as int]),
                ));
            }
        }
        k = k + 1;
    }
    proof {
        assert(co_lines@.take(co_lines@.len() as int) =~= co_lines@);
    }
    let mut others = quotations.clone();
    proof {
        assert(others@ == quotations@);
    }
    crate::quotations::supersede_other_quotations(&mut others, change_order.project_id, new_quotation_id);
    Rebaseline {
        quotation: Quotation {
            id: new_quotation_id,
            project_id: change_order.project_id,
            version,
            status: QuotationStatus::Approved,
        },
        lines,
        quotations: others,
    }
}

/// The scope a change order staged beyond its lines: the workstreams to
/// enable, the schedule tasks to spawn, and a fresh id for each of those
/// tasks, in the same order.
pub struct StagedScope {
    pub add_workstreams: Vec<WorkstreamType>,
    pub add_schedule_tasks: Vec<NewScheduleTaskInput>,
    pub task_ids: Vec<u128>,
}

/// The schedule task spawned for a staged task (id `id`) of a project: not
/// started, with the staged planned dates, no actual dates and no site task.
pub open spec fn spawned_task(input: NewScheduleTaskInput, id: u128, project_id: u128) -> ScheduleTask {
    ScheduleTask {
        id,
        project_id,
        workstream_type: input.workstream_type,
        status: crate::schedule::TaskStatus::NotStarted,
        dates: crate::schedule::ScheduleDates {
            planned_start_date: input.planned_start_date,
            planned_end_date: input.planned_end_date,
            actual_start_date: None,
            actual_end_date: None,
        },
        site_task_id: None,
    }
}

/// A schedule task an approved change order spawns: the task, its title,
/// the existing task it depends on, if any, and the change order that
/// spawned it.
pub struct SpawnedTask {
    pub task: ScheduleTask,
    pub title: String,
    pub depends_on_existing_task_id: Option<u128>,
    pub spawned_by_change_order_id: u128,
}

/// The spawned tasks are exactly the staged tasks, in order, under the
/// staged ids, in the project, each marked as spawned by change order
/// `change_order_id`.
pub open spec fn spawns_staged(
    spawned: Seq<SpawnedTask>,
    staged: StagedScope,
    project_id: u128,
    change_order_id: u128,
) -> bool {
    &&& spawned.len() == staged.add_schedule_tasks@.len()
    &&& forall|j: int|
        0 <= j < spawned.len() ==> {
            &&& (#[trigger] spawned[j]).task == spawned_task(
                staged.add_schedule_tasks@[j],
                staged.task_ids@[j],
                project_id,
            )
            &&& spawned[j].title@ == staged.add_schedule_tasks@[j].title@
            &&& spawned[j].depends_on_existing_task_id == staged.add_schedule_tasks@[j].depends_on_existing_task_id
            &&& spawned[j].spawned_by_change_order_id == change_order_id
        }
}

fn spawn_tasks(staged: &StagedScope, project_id: u128, change_order_id: u128) -> (r: Vec<SpawnedTask>)
    requires
        staged.task_ids@.len() == staged.add_schedule_tasks@.len(),
    ensures
        spawns_staged(r@, *staged, project_id, change_order_id),
{
    let mut out: Vec<SpawnedTask> = Vec::new();
    let mut j: usize = 0;
    while j < staged.add_schedule_tasks.len()
        invariant
            j <= staged.add_schedule_tasks@.len(),
            staged.task_ids@.len() == staged.add_schedule_tasks@.len(),
            out@.len() == j,
            forall|i: int|
                0 <= i < j ==> {
                    &&& (#[trigger] out@[i]).task == spawned_task(
                        staged.add_schedule_tasks@[i],
                        staged.task_ids@[i],
                        project_id,
                    )
                    &&& out@[i].title@ == staged.add_schedule_tasks@[i].title@
                    &&& out@[i].depends_on_existing_task_id
                        == staged.add_schedule_tasks@[i].depends_on_existing_task_id
                    &&& out@[i].spawned_by_change_order_id == change_order_id
                },
        decreases staged.add_schedule_tasks@.len() - j,
    {
        let input = &staged.add_schedule_tasks[j];
        let task = ScheduleTask {
            id: staged.task_ids[j],
            project_id,
            workstream_type: input.workstream_type,
            status: crate::schedule::TaskStatus::NotStarted,
            dates: crate::schedule::ScheduleDates {
                planned_start_date: input.planned_start_date,
                planned_end_date: input.planned_end_date,
                actual_start_date: None,
                actual_end_date: None,
            },
            site_task_id: None,
        };
        out.push(
            SpawnedTask {
                task,
                title: input.title.clone(),
                depends_on_existing_task_id: input.depends_on_existing_task_id,
                spawned_by_change_order_id: change_order_id,
            },
        );
        j = j + 1;
    }
    out
}

fn copy_workstreams(ws: &Vec<WorkstreamType>) -> (r: Vec<WorkstreamType>)
    ensures
        r@ == ws@,
{
    let mut out: Vec<WorkstreamType> = Vec::new();
    let mut j: usize = 0;
    while j < ws.len()
        invariant
            j <= ws@.len(),
            out@ == ws@.take(j as int),
        decreases ws@.len() - j,
    {
        out.push(ws[j]);
        j = j + 1;
        proof {
            assert(out@ =~= ws@.take(j as int));
        }
    }
    proof {
        assert(ws@.take(ws@.len() as int) =~= ws@);
    }
    out
}

/// The client's decision on a change order: the updated order, who decided
/// it, and what an approval re-baselines, enables and spawns.
pub struct ChangeOrderDecision {
    pub change_order: ChangeOrder,
    pub rebaseline: Option<Rebaseline>,
    /// The client user who decided.
    pub decided_by: u128,
    /// The workstreams an approval enables on the project.
    pub enable_workstreams: Vec<WorkstreamType>,
    /// The schedule tasks an approval spawns.
    pub spawned_tasks: Vec<SpawnedTask>,
}

/// The client's decision on a change order, taken by the client user
/// `client_user_id`. `change_order` is the order asked for (`None`: not
/// found) and `project` its project; `NotFound` when either is missing or
/// the project belongs to another client; `AlreadyDecided` when the order
/// no longer awaits approval. A rejection only records the status; an
/// approval re-baselines as `apply_change_order` does, records the new
/// quotation's id, and puts the `staged` scope into effect: its workstreams
/// are enabled and its schedule tasks spawned.
pub fn decide_change_order(
    change_order: Option<ChangeOrder>,
    project: Option<Project>,
    client_id: u128,
    client_user_id: u128,
    approve: bool,
    co_lines: &Vec<ChangeOrderLineItem>,
    base_lines: &Vec<QuotationLineItem>,
    quotations: &Vec<Quotation>,
    new_quotation_id: u128,
    staged: &StagedScope,
) -> (r: Result<ChangeOrderDecision, ApiError>)
    requires
        change_order matches Some(co) ==> crate::versions::versions_below_max(quotations@, co.project_id),
        staged.task_ids@.len() == staged.add_schedule_tasks@.len(),
    ensures
        match change_order {
            None => r == Err::<ChangeOrderDecision, ApiError>(ApiError::NotFound),
            Some(co) => match project {
                None => r == Err::<ChangeOrderDecision, ApiError>(ApiError::NotFound),
                Some(p) => if p.client_id != client_id {
                    r == Err::<ChangeOrderDecision, ApiError>(ApiError::NotFound)
                } else if co.status != ChangeOrderStatus::PendingClientApproval {
                    r == Err::<ChangeOrderDecision, ApiError>(ApiError::BadRequest(BadRequest::AlreadyDecided))
                } else if approve {
                    r matches Ok(d) && d.change_order.status == ChangeOrderStatus::Approved
                        && d.change_order.new_quotation_id == Some(new_quotation_id) && d.change_order.id == co.id
                        && d.decided_by == client_user_id
                        && d.rebaseline is Some && d.rebaseline.unwrap().quotation.id == new_quotation_id
                        && d.rebaseline.unwrap().quotation.status == QuotationStatus::Approved
                        && d.rebaseline.unwrap().lines@.map_values(|l: BaselineLine| l.value()) == rebaselined(
                        base_lines@,
                        co_lines@,
                    ) && d.enable_workstreams@ == staged.add_workstreams@
                        && spawns_staged(d.spawned_tasks@, *staged, co.project_id, co.id)
                } else {
                    r matches Ok(d) && d.change_order.status == ChangeOrderStatus::Rejected
                        && d.change_order.new_quotation_id is None && d.change_order.id == co.id
                        && d.decided_by == client_user_id
                        && d.rebaseline is None && d.enable_workstreams@.len() == 0 && d.spawned_tasks@.len() == 0
                },
            },
        },
{
    let co = match change_order {
        None => return Err(ApiError::NotFound),
        Some(co) => co,
    };
    let p = match project {
        None => return Err(ApiError::NotFound),
        Some(p) => p,
    };
    if p.client_id != client_id {
        return Err(ApiError::NotFound);
    }
    if co.status != ChangeOrderStatus::PendingClientApproval {
        return Err(bad(BadRequest::AlreadyDecided));
    }
    if approve {
        let rb = apply_change_order(&co, co_lines, base_lines, quotations, new_quotation_id);
        let enable_workstreams = copy_workstreams(&staged.add_workstreams);
        let spawned_tasks = spawn_tasks(staged, co.project_id, co.id);
        Ok(
            ChangeOrderDecision {
                change_order: ChangeOrder {
                    status: ChangeOrderStatus::Approved,
                    new_quotation_id: Some(new_quotation_id),
                    ..co
                },
                rebaseline: Some(rb),
                decided_by: client_user_id,
                enable_workstreams,
                spawned_tasks,
            },
        )
    } else {
        Ok(
            ChangeOrderDecision {
                change_order: ChangeOrder { status: ChangeOrderStatus::Rejected, new_quotation_id: None, ..co },
                rebaseline: None,
                decided_by: client_user_id,
                enable_workstreams: Vec::new(),
                spawned_tasks: Vec::new(),
            },
        )
    }
}


/// The total of the lines' amounts, in units of `10^-28`.
pub open spec fn total(lines: Seq<LineView>) -> int
    decreases lines.len(),
{
    if lines.len() == 0 {
        0
    } else {
        total(lines.drop_last()) + units(lines.last().amount)
    }
}

/// The total of the base lines' amounts whose id satisfies `pred`.
pub open spec fn base_sum(base: Seq<QuotationLineItem>, pred: spec_fn(u128) -> bool) -> int
    decreases base.len(),
{
    if base.len() == 0 {
        0
    } else {
        base_sum(base.drop_last(), pred) + if pred(base.last().id) {
            units(base.last().amount@)
        } else {
            0
        }
    }
}

/// The total of all the base lines' amounts.
pub open spec fn base_total(base: Seq<QuotationLineItem>) -> int {
    base_sum(base, |id: u128| true)
}

/// The cost change a recorded change order line makes against the base
/// lines: its amount if new; its amount less the original's if modified;
/// the original's amount, negated, if removed.
pub open spec fn recorded_delta(l: ChangeOrderLineItem, base: Seq<QuotationLineItem>) -> int {
    match l.original_line_item_id {
        None => units(l.amount@),
        Some(id) => {
            let orig = units(find_by_key(base, id).unwrap().amount@);
            if l.removed {
                -orig
            } else {
                units(l.amount@) - orig
            }
        },
    }
}

/// The cost impact of recorded change order lines, in units.
pub open spec fn recorded_impact(co: Seq<ChangeOrderLineItem>, base: Seq<QuotationLineItem>) -> int
    decreases co.len(),
{
    if co.len() == 0 {
        0
    } else {
        recorded_impact(co.drop_last(), base) + recorded_delta(co.last(), base)
    }
}

/// The amounts of the base lines the change order lines modify or remove.
pub open spec fn originals_sum(co: Seq<ChangeOrderLineItem>, base: Seq<QuotationLineItem>) -> int
    decreases co.len(),
{
    if co.len() == 0 {
        0
    } else {
        originals_sum(co.drop_last(), base) + match co.last().original_line_item_id {
            None => 0,
            Some(id) => units(find_by_key(base, id).unwrap().amount@),
        }
    }
}

proof fn lemma_total_concat(a: Seq<LineView>, b: Seq<LineView>)
    ensures
        total(a + b) == total(a) + total(b),
    decreases b.len(),
{
    if b.len() > 0 {
        assert((a + b).drop_last() =~= a + b.drop_last());
        lemma_total_concat(a, b.drop_last());
    } else {
        assert(a + b =~= a);
    }
}

/// Splitting the lines by a partition of the predicate splits the sum.
proof fn lemma_base_sum_split(
    base: Seq<QuotationLineItem>,
    p: spec_fn(u128) -> bool,
    q: spec_fn(u128) -> bool,
    r: spec_fn(u128) -> bool,
)
    requires
        forall|id: u128| #[trigger] p(id) == (q(id) || r(id)),
        forall|id: u128| !(#[trigger] q(id) && r(id)),
    ensures
        base_sum(base, p) == base_sum(base, q) + base_sum(base, r),
    decreases base.len(),
{
    if base.len() > 0 {
        lemma_base_sum_split(base.drop_last(), p, q, r);
        let id = base.last().id;
        assert(p(id) == (q(id) || r(id)));
        assert(!(q(id) && r(id)));
    }
}

/// The one line with id `x` is all that an equality predicate on `x` sums.
proof fn lemma_base_sum_single(base: Seq<QuotationLineItem>, x: u128, i: int)
    requires
        0 <= i < base.len(),
        base[i].id == x,
        forall|a: int, b: int| 0 <= a < base.len() && 0 <= b < base.len() && base[a].id == base[b].id ==> a == b,
    ensures
        base_sum(base, |id: u128| id == x) == units(base[i].amount@),
    decreases base.len(),
{
    let prev = base.drop_last();
    let last = base.len() - 1;
    if i == last {
        lemma_base_sum_none(prev, x);
        assert(base.last() == base[i]);
    } else {
        assert(base.last() == base[last]);
        assert(base[last].id != x);
        assert(prev[i] == base[i]);
        assert forall|a: int, b: int| 0 <= a < prev.len() && 0 <= b < prev.len() && prev[a].id == prev[b].id implies a
            == b by {
            assert(prev[a] == base[a] && prev[b] == base[b]);
        }
        lemma_base_sum_single(prev, x, i);
    }
}

proof fn lemma_base_sum_none(base: Seq<QuotationLineItem>, x: u128)
    requires
        forall|a: int| 0 <= a < base.len() ==> (#[trigger] base[a]).id != x,
    ensures
        base_sum(base, |id: u128| id == x) == 0,
    decreases base.len(),
{
    if base.len() > 0 {
        let prev = base.drop_last();
        assert forall|a: int| 0 <= a < prev.len() implies (#[trigger] prev[a]).id != x by {
            assert(prev[a] == base[a]);
        }
        lemma_base_sum_none(prev, x);
        assert(base.last() == base[base.len() - 1]);
    }
}

/// The untouched lines carried over sum to the base lines' sum over the
/// untouched ids.
proof fn lemma_carried_total(base: Seq<QuotationLineItem>, co: Seq<ChangeOrderLineItem>)
    ensures
        total(carried(base, co)) == base_sum(base, |id: u128| !touched(co, id)),
    decreases base.len(),
{
    if base.len() > 0 {
        lemma_carried_total(base.drop_last(), co);
        let c = carried(base.drop_last(), co);
        if !touched(co, base.last().id) {
            assert(carried(base, co).drop_last() =~= c);
        }
    }
}

/// A change order's modifications and removals are distinct lines of the
/// base quotation.
pub open spec fn originals_valid(co: Seq<ChangeOrderLineItem>, base: Seq<QuotationLineItem>) -> bool {
    &&& forall|j: int|
        0 <= j < co.len() && (#[trigger] co[j]).original_line_item_id is Some ==> position_of(
            base,
            co[j].original_line_item_id.unwrap(),
        ) is Some
    &&& forall|a: int, b: int|
        0 <= a < co.len() && 0 <= b < co.len() && (#[trigger] co[a]).original_line_item_id is Some
            && co[a].original_line_item_id == (#[trigger] co[b]).original_line_item_id ==> a == b
}

/// The base quotation's line ids are unique.
pub open spec fn line_ids_unique(base: Seq<QuotationLineItem>) -> bool {
    forall|a: int, b: int| 0 <= a < base.len() && 0 <= b < base.len() && base[a].id == base[b].id ==> a == b
}

/// The originals of the change order lines sum to the touched base lines.
proof fn lemma_originals_are_touched(co: Seq<ChangeOrderLineItem>, base: Seq<QuotationLineItem>)
    requires
        originals_valid(co, base),
        line_ids_unique(base),
    ensures
        originals_sum(co, base) == base_sum(base, |id: u128| touched(co, id)),
    decreases co.len(),
{
    if co.len() == 0 {
        lemma_base_sum_split(base, |id: u128| touched(co, id), |id: u128| false, |id: u128| false);
        assert(base_sum(base, |id: u128| false) == 0) by {
            lemma_base_sum_zero(base);
        }
    } else {
        let prev = co.drop_last();
        let l = co.last();
        assert(l == co[co.len() - 1]);
        assert forall|j: int| 0 <= j < prev.len() implies #[trigger] prev[j] == co[j] by {}
        lemma_originals_are_touched(prev, base);
        match l.original_line_item_id {
            None => {
                assert forall|id: u128| #[trigger] touched(co, id) == touched(prev, id) by {
                    if touched(co, id) {
                        let j = choose|j: int| 0 <= j < co.len() && (#[trigger] co[j]).original_line_item_id == Some(id);
                        assert(j != co.len() - 1);
                        assert(prev[j] == co[j]);
                    }
                    if touched(prev, id) {
                        let j = choose|j: int| 0 <= j < prev.len() && (#[trigger] prev[j]).original_line_item_id == Some(id);
                        assert(co[j] == prev[j]);
                    }
                }
                lemma_base_sum_split(base, |id: u128| touched(co, id), |id: u128| touched(prev, id), |id: u128| false);
                lemma_base_sum_zero(base);
            },
            Some(x) => {
                let last = co.len() - 1;
                assert(!touched(prev, x)) by {
                    if touched(prev, x) {
                        let j = choose|j: int| 0 <= j < prev.len() && (#[trigger] prev[j]).original_line_item_id == Some(x);
                        assert(co[j] == prev[j]);
                        assert(co[j].original_line_item_id == co[last].original_line_item_id);
                    }
                }
                assert forall|id: u128| #[trigger] touched(co, id) == (touched(prev, id) || id == x) by {
                    if touched(co, id) {
                        let j = choose|j: int| 0 <= j < co.len() && (#[trigger] co[j]).original_line_item_id == Some(id);
                        if j != last {
                            assert(prev[j] == co[j]);
                        }
                    }
                    if touched(prev, id) {
                        let j = choose|j: int| 0 <= j < prev.len() && (#[trigger] prev[j]).original_line_item_id == Some(id);
                        assert(co[j] == prev[j]);
                    }
                    if id == x {
                        assert(co[last].original_line_item_id == Some(id));
                    }
                }
                lemma_base_sum_split(base, |id: u128| touched(co, id), |id: u128| touched(prev, id), |id: u128| id == x);
                assert(co[last].original_line_item_id is Some);
                lemma_position_of(base, x);
                let i = position_of(base, x).unwrap();
                lemma_base_sum_single(base, x, i);
            },
        }
    }
}

proof fn lemma_base_sum_zero(base: Seq<QuotationLineItem>)
    ensures
        base_sum(base, |id: u128| false) == 0,
    decreases base.len(),
{
    if base.len() > 0 {
        lemma_base_sum_zero(base.drop_last());
    }
}

/// The recorded impact is what the kept lines add less what the touched
/// base lines held, when no new line is marked removed.
proof fn lemma_impact_parts(co: Seq<ChangeOrderLineItem>, base: Seq<QuotationLineItem>)
    requires
        forall|j: int| 0 <= j < co.len() && (#[trigger] co[j]).original_line_item_id is None ==> !co[j].removed,
    ensures
        recorded_impact(co, base) == total(added(co)) - originals_sum(co, base),
    decreases co.len(),
{
    if co.len() > 0 {
        let prev = co.drop_last();
        assert forall|j: int| 0 <= j < prev.len() && (#[trigger] prev[j]).original_line_item_id is None implies !prev[j].removed by {
            assert(prev[j] == co[j]);
        }
        lemma_impact_parts(prev, base);
        assert(co.last() == co[co.len() - 1]);
        if !co.last().removed {
            assert(added(co).drop_last() =~= added(prev));
        }
    }
}

/// Law: approving a change order changes the baseline's total by exactly
/// its cost impact: the re-baselined quotation totals the base quotation's
/// total plus the impact of the change order's lines. This holds when the
/// base line ids are unique, every modified or removed line is a distinct
/// line of the base quotation, and no new line is marked removed.
pub proof fn lemma_rebaseline_total(base: Seq<QuotationLineItem>, co: Seq<ChangeOrderLineItem>)
    requires
        line_ids_unique(base),
        originals_valid(co, base),
        forall|j: int| 0 <= j < co.len() && (#[trigger] co[j]).original_line_item_id is None ==> !co[j].removed,
    ensures
        total(rebaselined(base, co)) == base_total(base) + recorded_impact(co, base),
{
    lemma_total_concat(carried(base, co), added(co));
    lemma_carried_total(base, co);
    lemma_originals_are_touched(co, base);
    lemma_impact_parts(co, base);
    lemma_base_sum_split(base, |id: u128| true, |id: u128| touched(co, id), |id: u128| !touched(co, id));
}


/// The cost change a requested line makes, in units.
pub open spec fn request_delta(li: ChangeLineItemInput, all_lines: Seq<QuotationLineItem>) -> int {
    let amount = units(prod_exact(li.quantity@, li.unit_rate@));
    match li.original_line_item_id {
        None => amount,
        Some(id) => {
            let orig = units(find_by_key(all_lines, id).unwrap().amount@);
            if li.removed {
                -orig
            } else {
                amount - orig
            }
        },
    }
}

/// The cost impact of the requested lines, in units.
pub open spec fn request_impact(lines: Seq<ChangeLineItemInput>, all_lines: Seq<QuotationLineItem>) -> int
    decreases lines.len(),
{
    if lines.len() == 0 {
        0
    } else {
        request_impact(lines.drop_last(), all_lines) + request_delta(lines.last(), all_lines)
    }
}

/// Every decimal the proposal reads is a valid decimal.
pub open spec fn proposal_values_wf(lines: Seq<ChangeLineItemInput>, all_lines: Seq<QuotationLineItem>) -> bool {
    &&& forall|i: int| 0 <= i < lines.len() ==> (#[trigger] lines[i]).quantity@.wf() && lines[i].unit_rate@.wf()
    &&& forall|i: int| 0 <= i < all_lines.len() ==> (#[trigger] all_lines[i]).amount@.wf()
}

proof fn lemma_prod_wf(a: DecView, b: DecView)
    requires
        a.wf(),
        b.wf(),
        prod_fits(a, b),
    ensures
        prod_exact(a, b).wf(),
{
}

proof fn lemma_neg_units(d: DecView)
    ensures
        units(DecView { mantissa: -d.mantissa, scale: d.scale }) == -units(d),
{
    let p = crate::decimal::pow10((crate::decimal::MAX_SCALE - d.scale) as nat);
    assert((-d.mantissa) * p == -(d.mantissa * p)) by (nonlinear_arith);
}

/// Law: the cost impact a proposal records is, by value, the sum of its
/// lines' changes: the amount of each new line, the amount less the
/// original's for each modified line, and minus the original's amount for
/// each removed line.
pub proof fn lemma_cost_impact_value(lines: Seq<ChangeLineItemInput>, base_quotation_id: u128, all_lines: Seq<QuotationLineItem>)
    requires
        proposal_values_wf(lines, all_lines),
        exact_cost_impact(lines, base_quotation_id, all_lines) is Ok,
    ensures
        units(exact_cost_impact(lines, base_quotation_id, all_lines)->Ok_0) == request_impact(lines, all_lines),
        (exact_cost_impact(lines, base_quotation_id, all_lines)->Ok_0).wf(),
    decreases lines.len(),
{
    if lines.len() > 0 {
        let prev = lines.drop_last();
        let li = lines.last();
        assert(li == lines[lines.len() - 1]);
        assert forall|i: int| 0 <= i < prev.len() implies (#[trigger] prev[i]).quantity@.wf() && prev[i].unit_rate@.wf() by {
            assert(prev[i] == lines[i]);
        }
        lemma_cost_impact_value(prev, base_quotation_id, all_lines);
        let acc = exact_cost_impact(prev, base_quotation_id, all_lines)->Ok_0;
        let amount = prod_exact(li.quantity@, li.unit_rate@);
        lemma_prod_wf(li.quantity@, li.unit_rate@);
        let d = exact_line_delta(li, base_quotation_id, all_lines)->Ok_0;
        match li.original_line_item_id {
            None => {},
            Some(oid) => {
                lemma_position_of(all_lines, oid);
                let orig = find_by_key(all_lines, oid).unwrap();
                let k = position_of(all_lines, oid).unwrap();
                assert(orig == all_lines[k]);
                assert(orig.amount@.wf());
                if li.removed {
                    lemma_neg_units(orig.amount@);
                } else {
                    lemma_units_diff(amount, orig.amount@);
                }
            },
        }
        assert(d.wf());
        lemma_units_sum(acc, d);
    }
}


/// Reads a change order for an internal user: `NotFound` when it does not
/// exist, then the caller needs the sales-and-design role in the business
/// unit of its project (`project`).
pub fn get_change_order(
    change_order: Option<ChangeOrder>,
    project: Option<Project>,
    assignments: &Vec<RoleAssignment>,
    user_id: u128,
) -> (r: Result<ChangeOrder, ApiError>)
    ensures
        match change_order {
            None => r matches Err(e) && e == ApiError::NotFound,
            Some(co) => match project_access(project, assignments@, user_id, Some(Role::SalesDesign)) {
                Err(e) => r matches Err(e2) && e2 == e,
                Ok(_) => r matches Ok(c) && c.id == co.id && c.status == co.status && c.project_id == co.project_id,
            },
        },
{
    let co = match change_order {
        None => return Err(ApiError::NotFound),
        Some(co) => co,
    };
    match authorize_project(project, assignments, user_id, Some(Role::SalesDesign)) {
        Err(e) => Err(e),
        Ok(_) => Ok(co),
    }
}


/// Law: after a change order is approved, the new baseline is the
/// project's only approved quotation: every earlier quotation of the
/// project that was approved is superseded, provided the new quotation's id
/// is fresh.
pub proof fn lemma_rebaseline_leaves_one_approved(quotations: Seq<Quotation>, project_id: u128, new_quotation_id: u128)
    requires
        forall|i: int| 0 <= i < quotations.len() ==> (#[trigger] quotations[i]).id != new_quotation_id,
    ensures
        forall|i: int|
            0 <= i < quotations.len() && (#[trigger] quotations[i]).project_id == project_id ==> crate::quotations::superseded_by(
                quotations[i],
                project_id,
                new_quotation_id,
            ).status != QuotationStatus::Approved,
{
}


/// The recorded change order lines are the requested lines as stored: the
/// same originals and removals, in the same order, each with its exact
/// amount quantity * rate.
pub open spec fn records_request(co: Seq<ChangeOrderLineItem>, lines: Seq<ChangeLineItemInput>) -> bool {
    &&& co.len() == lines.len()
    &&& forall|j: int|
        0 <= j < co.len() ==> {
            &&& (#[trigger] co[j]).original_line_item_id == lines[j].original_line_item_id
            &&& co[j].removed == lines[j].removed
            &&& co[j].amount@ == prod_exact(lines[j].quantity@, lines[j].unit_rate@)
        }
}

/// Each original the request names is found as the same line among the
/// base quotation's lines as among all lines.
pub open spec fn originals_agree(
    lines: Seq<ChangeLineItemInput>,
    base: Seq<QuotationLineItem>,
    all_lines: Seq<QuotationLineItem>,
) -> bool {
    forall|j: int|
        0 <= j < lines.len() && (#[trigger] lines[j]).original_line_item_id is Some ==> find_by_key(
            all_lines,
            lines[j].original_line_item_id.unwrap(),
        ) == find_by_key(base, lines[j].original_line_item_id.unwrap())
}

proof fn lemma_recorded_impact_is_requested(
    co: Seq<ChangeOrderLineItem>,
    lines: Seq<ChangeLineItemInput>,
    base: Seq<QuotationLineItem>,
    all_lines: Seq<QuotationLineItem>,
)
    requires
        records_request(co, lines),
        originals_agree(lines, base, all_lines),
    ensures
        recorded_impact(co, base) == request_impact(lines, all_lines),
    decreases co.len(),
{
    if co.len() > 0 {
        let n = co.len() - 1;
        assert(co.drop_last().len() == lines.drop_last().len());
        assert forall|j: int| 0 <= j < co.drop_last().len() implies {
            &&& (#[trigger] co.drop_last()[j]).original_line_item_id == lines.drop_last()[j].original_line_item_id
            &&& co.drop_last()[j].removed == lines.drop_last()[j].removed
            &&& co.drop_last()[j].amount@ == prod_exact(lines.drop_last()[j].quantity@, lines.drop_last()[j].unit_rate@)
        } by {
            assert(co.drop_last()[j] == co[j]);
            assert(lines.drop_last()[j] == lines[j]);
        }
        assert forall|j: int|
            0 <= j < lines.drop_last().len() && (#[trigger] lines.drop_last()[j]).original_line_item_id is Some implies find_by_key(
            all_lines,
            lines.drop_last()[j].original_line_item_id.unwrap(),
        ) == find_by_key(base, lines.drop_last()[j].original_line_item_id.unwrap()) by {
            assert(lines.drop_last()[j] == lines[j]);
        }
        lemma_recorded_impact_is_requested(co.drop_last(), lines.drop_last(), base, all_lines);
        assert(co.last() == co[n]);
        assert(lines.last() == lines[n]);
    }
}

/// Law: approving a change order moves the baseline's total by exactly the
/// cost impact recorded when it was proposed: when the recorded lines are
/// the requested lines as stored, the re-baselined quotation totals the
/// base quotation's total plus that cost impact. This holds when the base
/// line ids are unique, every modified or removed line is a distinct line
/// of the base quotation (found the same among all lines), and no new line
/// is marked removed.
pub proof fn lemma_approval_moves_total_by_cost_impact(
    base: Seq<QuotationLineItem>,
    co: Seq<ChangeOrderLineItem>,
    lines: Seq<ChangeLineItemInput>,
    base_quotation_id: u128,
    all_lines: Seq<QuotationLineItem>,
)
    requires
        line_ids_unique(base),
        originals_valid(co, base),
        forall|j: int| 0 <= j < co.len() && (#[trigger] co[j]).original_line_item_id is None ==> !co[j].removed,
        records_request(co, lines),
        originals_agree(lines, base, all_lines),
        proposal_values_wf(lines, all_lines),
        exact_cost_impact(lines, base_quotation_id, all_lines) is Ok,
    ensures
        total(rebaselined(base, co)) == base_total(base) + units(
            exact_cost_impact(lines, base_quotation_id, all_lines)->Ok_0,
        ),
{
    lemma_rebaseline_total(base, co);
    lemma_recorded_impact_is_requested(co, lines, base, all_lines);
    lemma_cost_impact_value(lines, base_quotation_id, all_lines);
}

} // verus!
