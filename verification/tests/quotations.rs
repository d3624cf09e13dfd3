use api::authz::RoleAssignment;
use api::change_orders::{
    apply_change_order, create_change_order, decide_change_order, ChangeLineItemInput, ChangeOrder, ChangeOrderLineItem,
    ChangeOrderStatus, CreateChangeOrderRequest, NewScheduleTaskInput, StagedScope,
};
use api::decimal::Dec;
use api::error::{ApiError, BadRequest};
use api::project::{BillingMethod, Project};
use api::quotations::{
    create_quotation, decide_quotation, supersede_other_quotations, CreateQuotationRequest, LineItemInput, Quotation,
    QuotationLineItem, QuotationStatus,
};
use api::schedule::{Role, ScheduleDates, ScheduleTask, TaskStatus, WorkstreamType};

fn dec(m: i128, s: u32) -> Dec {
    Dec::new(m, s).unwrap()
}

fn repr(d: &Dec) -> (i128, u32) {
    (d.mantissa(), d.scale())
}

const USER: u128 = 7;
const BU: u128 = 100;
const CLIENT: u128 = 9;

fn project() -> Project {
    Project { id: 1, business_unit_id: BU, client_id: CLIENT, billing_method: BillingMethod::Milestone }
}

fn line(qty: i128, rate: i128) -> LineItemInput {
    LineItemInput { description: String::from("Table"), quantity: dec(qty, 0), unit: String::from("nos"), unit_rate: dec(rate, 0) }
}

#[test]
fn quotation_versions_increment_and_preserve_history() {
    let v1 = create_quotation(&CreateQuotationRequest { line_items: vec![line(2, 5000)] }, Some(project()), &vec![], 11).unwrap();
    assert_eq!(v1.quotation.version, 1);
    assert_eq!(v1.quotation.status, QuotationStatus::Draft);
    assert_eq!(repr(&v1.amounts[0]), (10000, 0));
    let existing = vec![v1.quotation];
    let v2 = create_quotation(&CreateQuotationRequest { line_items: vec![line(3, 5000)] }, Some(project()), &existing, 12)
        .unwrap();
    assert_eq!(v2.quotation.version, 2);
    assert_eq!(existing[0].version, 1);
}

#[test]
fn quotation_line_item_rejects_nonpositive_quantity_or_rate() {
    let zero_qty = create_quotation(&CreateQuotationRequest { line_items: vec![line(0, 100)] }, Some(project()), &vec![], 11);
    assert_eq!(zero_qty.err(), Some(ApiError::BadRequest(BadRequest::QuantityMustBePositive)));
    let neg_rate = create_quotation(&CreateQuotationRequest { line_items: vec![line(1, -50)] }, Some(project()), &vec![], 11);
    assert_eq!(neg_rate.err(), Some(ApiError::BadRequest(BadRequest::UnitRateMustNotBeNegative)));
    let empty = create_quotation(&CreateQuotationRequest { line_items: vec![] }, Some(project()), &vec![], 11);
    assert_eq!(empty.err(), Some(ApiError::BadRequest(BadRequest::AtLeastOneLineItem)));
    let missing = create_quotation(&CreateQuotationRequest { line_items: vec![line(1, 1)] }, None, &vec![], 11);
    assert_eq!(missing.err(), Some(ApiError::NotFound));
}

#[test]
fn approving_a_quotation_supersedes_the_other_open_ones() {
    let qs = vec![
        Quotation { id: 1, project_id: 1, version: 1, status: QuotationStatus::Approved },
        Quotation { id: 2, project_id: 1, version: 2, status: QuotationStatus::Sent },
        Quotation { id: 3, project_id: 1, version: 3, status: QuotationStatus::Rejected },
        Quotation { id: 4, project_id: 2, version: 1, status: QuotationStatus::Draft },
    ];
    let after = decide_quotation(&qs, 2, Some(project()), CLIENT, true).unwrap();
    assert_eq!(after[0].status, QuotationStatus::Superseded);
    assert_eq!(after[1].status, QuotationStatus::Approved);
    assert_eq!(after[2].status, QuotationStatus::Rejected);
    assert_eq!(after[3].status, QuotationStatus::Draft);
    let again = decide_quotation(&after, 2, Some(project()), CLIENT, false);
    assert_eq!(again.err(), Some(ApiError::BadRequest(BadRequest::AlreadyDecided)));
    let other_client = decide_quotation(&qs, 2, Some(project()), CLIENT + 1, true);
    assert_eq!(other_client.err(), Some(ApiError::NotFound));
    let rejected = decide_quotation(&qs, 2, Some(project()), CLIENT, false).unwrap();
    assert_eq!(rejected[0].status, QuotationStatus::Approved);
    assert_eq!(rejected[1].status, QuotationStatus::Rejected);
    let mut copy = qs.clone();
    supersede_other_quotations(&mut copy, 1, 3);
    assert_eq!(copy[0].status, QuotationStatus::Superseded);
    assert_eq!(copy[2].status, QuotationStatus::Rejected);
    assert_eq!(QuotationStatus::parse("superseded"), Some(QuotationStatus::Superseded));
    assert_eq!(QuotationStatus::parse("bogus"), None);
}

fn base_lines() -> Vec<QuotationLineItem> {
    vec![
        QuotationLineItem {
            id: 501,
            quotation_id: 40,
            description: String::from("Kitchen"),
            quantity: dec(1, 0),
            unit: String::from("set"),
            unit_rate: dec(300000, 0),
            amount: dec(300000, 0),
        },
        QuotationLineItem {
            id: 502,
            quotation_id: 40,
            description: String::from("Wardrobe"),
            quantity: dec(1, 0),
            unit: String::from("nos"),
            unit_rate: dec(80000, 0),
            amount: dec(80000, 0),
        },
    ]
}

fn change_line(original: Option<u128>, removed: bool, desc: &str, rate: i128) -> ChangeLineItemInput {
    ChangeLineItemInput {
        original_line_item_id: original,
        removed,
        description: String::from(desc),
        quantity: dec(1, 0),
        unit: String::from("nos"),
        unit_rate: dec(rate, 0),
    }
}

fn approved_base() -> Vec<Quotation> {
    vec![Quotation { id: 40, project_id: 1, version: 1, status: QuotationStatus::Approved }]
}

fn sales() -> Vec<RoleAssignment> {
    vec![RoleAssignment { user_id: USER, business_unit_id: BU, role: Role::SalesDesign }]
}

fn co_request(lines: Vec<ChangeLineItemInput>) -> CreateChangeOrderRequest {
    CreateChangeOrderRequest {
        base_quotation_id: 40,
        title: String::from("Add curtain, upsize wardrobe"),
        description: None,
        line_items: lines,
        add_workstreams: vec![],
        add_schedule_tasks: vec![],
    }
}

#[test]
fn change_order_cost_impact_computes_additions_modifications_removals() {
    let req = co_request(vec![change_line(None, false, "Curtains", 50000), change_line(Some(502), false, "Wardrobe XL", 95000)]);
    let plan = create_change_order(&req, &sales(), USER, Some(project()), &vec![], &vec![], &approved_base(), &base_lines())
        .unwrap();
    assert_eq!(repr(&plan.cost_impact), (65000, 0));
    assert_eq!(plan.status, ChangeOrderStatus::PendingClientApproval);
    assert_eq!(plan.new_quotation_id, None);
    assert_eq!(plan.requested_by, USER);
    assert_eq!(plan.line_amounts.len(), 2);
    assert_eq!(repr(&plan.line_amounts[1]), (95000, 0));
    let removal = co_request(vec![change_line(Some(501), true, "Kitchen", 1)]);
    let plan = create_change_order(&removal, &sales(), USER, Some(project()), &vec![], &vec![], &approved_base(), &base_lines())
        .unwrap();
    assert_eq!(repr(&plan.cost_impact), (-300000, 0));
}

#[test]
fn change_order_line_item_rejects_nonpositive_quantity_or_rate() {
    let mut bad = change_line(None, false, "Y", 100);
    bad.quantity = dec(-1, 0);
    let r = create_change_order(&co_request(vec![bad]), &sales(), USER, Some(project()), &vec![], &vec![], &approved_base(), &base_lines());
    assert_eq!(r.err(), Some(ApiError::BadRequest(BadRequest::QuantityMustBePositive)));
}

#[test]
fn change_order_refusals_follow_the_check_order() {
    let mut untitled = co_request(vec![change_line(None, false, "X", 1)]);
    untitled.title = String::from(" ");
    let r = create_change_order(&untitled, &sales(), USER, Some(project()), &vec![], &vec![], &approved_base(), &base_lines());
    assert_eq!(r.err(), Some(ApiError::BadRequest(BadRequest::TitleRequired)));
    let r = create_change_order(&co_request(vec![]), &sales(), USER, Some(project()), &vec![], &vec![], &approved_base(), &base_lines());
    assert_eq!(r.err(), Some(ApiError::BadRequest(BadRequest::AtLeastOneChange)));
    let r = create_change_order(&co_request(vec![change_line(None, false, "X", 1)]), &vec![], USER, Some(project()), &vec![], &vec![], &approved_base(), &base_lines());
    assert_eq!(r.err(), Some(ApiError::Forbidden));
    let mut ws = co_request(vec![]);
    ws.add_workstreams = vec![WorkstreamType::Design];
    let r = create_change_order(&ws, &sales(), USER, Some(project()), &vec![WorkstreamType::Design], &vec![], &approved_base(), &base_lines());
    assert_eq!(r.err(), Some(ApiError::BadRequest(BadRequest::WorkstreamAlreadyEnabled)));
    let mut staged = co_request(vec![]);
    staged.add_schedule_tasks = vec![NewScheduleTaskInput {
        title: String::from("Install"),
        workstream_type: WorkstreamType::SiteExecution,
        planned_start_date: None,
        planned_end_date: None,
        depends_on_existing_task_id: Some(900),
    }];
    let r = create_change_order(&staged, &sales(), USER, Some(project()), &vec![], &vec![], &approved_base(), &base_lines());
    assert_eq!(r.err(), Some(ApiError::BadRequest(BadRequest::StagedDependencyNotFound)));
    let foreign = vec![ScheduleTask {
        id: 900,
        project_id: 2,
        workstream_type: WorkstreamType::SiteExecution,
        status: TaskStatus::NotStarted,
        dates: ScheduleDates { planned_start_date: None, planned_end_date: None, actual_start_date: None, actual_end_date: None },
        site_task_id: None,
    }];
    let r = create_change_order(&staged, &sales(), USER, Some(project()), &vec![], &foreign, &approved_base(), &base_lines());
    assert_eq!(r.err(), Some(ApiError::BadRequest(BadRequest::StagedDependencyOfOtherProject)));
    let draft = vec![Quotation { id: 40, project_id: 1, version: 1, status: QuotationStatus::Draft }];
    let r = create_change_order(&co_request(vec![change_line(None, false, "X", 1)]), &sales(), USER, Some(project()), &vec![], &vec![], &draft, &base_lines());
    assert_eq!(r.err(), Some(ApiError::BadRequest(BadRequest::BaseQuotationNotApproved)));
    let r = create_change_order(&co_request(vec![change_line(Some(999), false, "X", 1)]), &sales(), USER, Some(project()), &vec![], &vec![], &approved_base(), &base_lines());
    assert_eq!(r.err(), Some(ApiError::BadRequest(BadRequest::OriginalLineNotFound)));
}

fn recorded(id: u128, original: Option<u128>, removed: bool, desc: &str, amount: i128) -> ChangeOrderLineItem {
    ChangeOrderLineItem {
        id,
        change_order_id: 60,
        original_line_item_id: original,
        removed,
        description: String::from(desc),
        quantity: dec(1, 0),
        unit: String::from("nos"),
        unit_rate: dec(amount, 0),
        amount: dec(amount, 0),
    }
}

fn pending_change_order() -> ChangeOrder {
    ChangeOrder {
        id: 60,
        project_id: 1,
        base_quotation_id: 40,
        new_quotation_id: None,
        status: ChangeOrderStatus::PendingClientApproval,
        cost_impact: dec(65000, 0),
        requested_by: USER,
    }
}

#[test]
fn approving_a_change_order_rebaselines_the_quotation() {
    let co_lines = vec![recorded(1, None, false, "Curtains", 50000), recorded(2, Some(502), false, "Wardrobe XL", 95000)];
    let rb = apply_change_order(&pending_change_order(), &co_lines, &base_lines(), &approved_base(), 41);
    assert_eq!(rb.quotation.version, 2);
    assert_eq!(rb.quotation.status, QuotationStatus::Approved);
    let descriptions: Vec<&str> = rb.lines.iter().map(|l| l.description.as_str()).collect();
    assert_eq!(descriptions, vec!["Kitchen", "Curtains", "Wardrobe XL"]);
    let total: i128 = rb.lines.iter().map(|l| l.amount.mantissa()).sum();
    assert_eq!(total, 380000 + 65000);
    assert_eq!(rb.quotations[0].status, QuotationStatus::Superseded);
}

#[test]
fn change_order_decision_once() {
    let co_lines = vec![recorded(1, Some(501), true, "Kitchen", 300000)];
    let staged = StagedScope {
        add_workstreams: vec![WorkstreamType::Manufacturing],
        add_schedule_tasks: vec![NewScheduleTaskInput {
            title: String::from("Install curtains"),
            workstream_type: WorkstreamType::SiteExecution,
            planned_start_date: Some(740000),
            planned_end_date: Some(740003),
            depends_on_existing_task_id: Some(900),
        }],
        task_ids: vec![77],
    };
    let d = decide_change_order(Some(pending_change_order()), Some(project()), CLIENT, 66, true, &co_lines, &base_lines(), &approved_base(), 41, &staged)
        .unwrap();
    assert_eq!(d.change_order.status, ChangeOrderStatus::Approved);
    assert_eq!(d.change_order.new_quotation_id, Some(41));
    assert_eq!(d.decided_by, 66);
    assert_eq!(d.enable_workstreams, vec![WorkstreamType::Manufacturing]);
    assert_eq!(d.spawned_tasks.len(), 1);
    let spawned = &d.spawned_tasks[0];
    assert_eq!(spawned.title, "Install curtains");
    assert_eq!(spawned.depends_on_existing_task_id, Some(900));
    assert_eq!(spawned.task.id, 77);
    assert_eq!(spawned.spawned_by_change_order_id, pending_change_order().id);
    assert_eq!(spawned.task.status, TaskStatus::NotStarted);
    assert_eq!(spawned.task.dates.planned_start_date, Some(740000));
    let rb = d.rebaseline.unwrap();
    assert_eq!(rb.lines.len(), 1);
    assert_eq!(rb.lines[0].description, "Wardrobe");
    let again = decide_change_order(Some(d.change_order), Some(project()), CLIENT, 66, true, &co_lines, &base_lines(), &approved_base(), 42, &staged);
    assert_eq!(again.err(), Some(ApiError::BadRequest(BadRequest::AlreadyDecided)));
    let rejected = decide_change_order(Some(pending_change_order()), Some(project()), CLIENT, 66, false, &co_lines, &base_lines(), &approved_base(), 41, &staged)
        .unwrap();
    assert_eq!(rejected.change_order.status, ChangeOrderStatus::Rejected);
    assert_eq!(rejected.decided_by, 66);
    assert!(rejected.rebaseline.is_none());
    assert!(rejected.enable_workstreams.is_empty() && rejected.spawned_tasks.is_empty());
    let stranger = decide_change_order(Some(pending_change_order()), Some(project()), CLIENT + 1, 66, true, &co_lines, &base_lines(), &approved_base(), 41, &staged);
    assert_eq!(stranger.err(), Some(ApiError::NotFound));
}

fn value_at_28(d: &Dec) -> i128 {
    d.mantissa() * 10i128.pow(28 - d.scale())
}

#[test]
fn quotation_line_amount_past_28_places_is_rounded() {
    let req = CreateQuotationRequest {
        line_items: vec![LineItemInput {
            description: String::from("Veneer"),
            quantity: dec(123456789, 15),
            unit: String::from("sqft"),
            unit_rate: dec(1, 15),
        }],
    };
    let plan = create_quotation(&req, Some(project()), &vec![], 11).unwrap();
    assert_eq!(value_at_28(&plan.amounts[0]), 1234568);
}

#[test]
fn change_order_amount_past_28_places_is_rounded() {
    let mut tiny = change_line(None, false, "Veneer", 1);
    tiny.quantity = dec(123456789, 15);
    tiny.unit_rate = dec(1, 15);
    let plan = create_change_order(&co_request(vec![tiny]), &sales(), USER, Some(project()), &vec![], &vec![], &approved_base(), &base_lines())
        .unwrap();
    assert_eq!(value_at_28(&plan.line_amounts[0]), 1234568);
    assert_eq!(value_at_28(&plan.cost_impact), 1234568);
}
