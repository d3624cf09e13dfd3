use api::authz::{accessible_business_units, RoleAssignment};
use api::decimal::Dec;
use api::design::{
    create_design_asset, decide_revision, list_my_projects, submit_design_revision, CreateDesignAssetRequest, DecisionRequest,
    DesignRevision, RevisionStatus, SubmitRevisionRequest,
};
use api::error::{ApiError, BadRequest};
use api::leads::{convert_lead, create_lead, ConvertLeadRequest, CreateLeadRequest, LeadStatus};
use api::manufacturing::{
    create_production_task, update_production_task_status, CreateProductionTaskRequest, ProductionStatus,
    ProductionTaskUpdateStatusRequest,
};
use api::procurement::{
    create_purchase_order, create_vendor, decide_purchase_order, mark_purchase_order_delivered, CreatePurchaseOrderRequest,
    CreateVendorRequest, PoLineItemInput, PurchaseOrderStatus,
};
use api::project::{create_project, default_billing_method, get_project, list_projects, BillingMethod, CreateProjectRequest, Project, WorkstreamStatus};
use api::schedule::{Role, TaskStatus, WorkstreamType};
use api::site_execution::{
    answer_site_query, close_punch_list_item, create_daily_log, create_punch_list_item, create_site_query, create_site_task,
    update_site_task_status, AnswerSiteQueryRequest, CreateDailyLogRequest, CreatePunchListItemRequest,
    CreateSiteQueryRequest, CreateSiteTaskRequest, PunchStatus, QueryStatus, SiteTaskUpdateStatusRequest,
};

const USER: u128 = 7;
const BU: u128 = 100;
const CLIENT: u128 = 9;

fn all_ws() -> Vec<WorkstreamType> {
    vec![WorkstreamType::Design, WorkstreamType::Manufacturing, WorkstreamType::Procurement, WorkstreamType::SiteExecution]
}

fn project() -> Project {
    Project { id: 1, business_unit_id: BU, client_id: CLIENT, billing_method: BillingMethod::Milestone }
}

fn roles(list: &[Role]) -> Vec<RoleAssignment> {
    list.iter().map(|r| RoleAssignment { user_id: USER, business_unit_id: BU, role: *r }).collect()
}

#[test]
fn purchase_order_lifecycle_create_and_deliver() {
    let req = CreatePurchaseOrderRequest {
        vendor_id: 3,
        title: String::from("Test PO"),
        line_items: vec![PoLineItemInput {
            quotation_line_item_id: None,
            description: String::from("Widgets"),
            quantity: Dec::new(3, 0).unwrap(),
            unit: String::from("nos"),
            unit_rate: Dec::new(5000, 0).unwrap(),
        }],
    };
    let po = create_purchase_order(&req, &roles(&[Role::Delivery]), USER, Some(project()), &all_ws(), true, 70).unwrap();
    assert_eq!(po.purchase_order.status, PurchaseOrderStatus::Open);
    assert_eq!(po.line_amounts[0].mantissa(), 15000);
    let delivered = mark_purchase_order_delivered(Some(po.purchase_order), Some(BU), &roles(&[Role::Delivery]), USER, 500).unwrap();
    assert_eq!(delivered.status, PurchaseOrderStatus::Delivered);
    assert_eq!(delivered.delivered_at, Some(500));
    assert_eq!(po.purchase_order.created_by, USER);
    let again = mark_purchase_order_delivered(Some(delivered), Some(BU), &roles(&[Role::Delivery]), USER, 501);
    assert_eq!(again.err(), Some(ApiError::BadRequest(BadRequest::PurchaseOrderNotOpen)));
}

#[test]
fn purchase_order_creation_requires_delivery_role() {
    let req = CreatePurchaseOrderRequest {
        vendor_id: 3,
        title: String::from("Test PO"),
        line_items: vec![PoLineItemInput {
            quotation_line_item_id: None,
            description: String::from("Widgets"),
            quantity: Dec::new(1, 0).unwrap(),
            unit: String::from("nos"),
            unit_rate: Dec::new(100, 0).unwrap(),
        }],
    };
    let r = create_purchase_order(&req, &roles(&[Role::SalesDesign]), USER, Some(project()), &all_ws(), true, 70);
    assert_eq!(r.err(), Some(ApiError::Forbidden));
    let no_procurement = vec![WorkstreamType::Design];
    let r = create_purchase_order(&req, &roles(&[Role::Delivery]), USER, Some(project()), &no_procurement, true, 70);
    assert_eq!(r.err(), Some(ApiError::BadRequest(BadRequest::WorkstreamNotEnabled)));
    let r = create_purchase_order(&req, &roles(&[Role::Delivery]), USER, Some(project()), &all_ws(), false, 70);
    assert_eq!(r.err(), Some(ApiError::BadRequest(BadRequest::VendorNotFound)));
    let vendor = create_vendor(
        &CreateVendorRequest { name: String::from("Test Vendor"), contact_email: None, contact_phone: None },
        &roles(&[Role::SalesDesign]),
        USER,
        true,
        3,
    );
    assert!(vendor.is_ok());
    let vendor = create_vendor(
        &CreateVendorRequest { name: String::from("Test Vendor"), contact_email: None, contact_phone: None },
        &roles(&[Role::SalesDesign]),
        USER,
        false,
        3,
    );
    assert_eq!(vendor.err(), Some(ApiError::Forbidden));
}

#[test]
fn purchase_order_decision_only_while_pending() {
    let pending = api::procurement::PurchaseOrder {
        id: 1,
        project_id: 1,
        vendor_id: 3,
        status: PurchaseOrderStatus::PendingApproval,
        created_by: USER,
        decided_by: None,
        decided_at: None,
        delivered_at: None,
    };
    let opened = decide_purchase_order(Some(pending), Some(BU), &roles(&[Role::Delivery]), USER, true, 300).unwrap();
    assert_eq!(opened.status, PurchaseOrderStatus::Open);
    assert_eq!((opened.decided_by, opened.decided_at), (Some(USER), Some(300)));
    let twice = decide_purchase_order(Some(opened), Some(BU), &roles(&[Role::Delivery]), USER, false, 301);
    assert_eq!(twice.err(), Some(ApiError::BadRequest(BadRequest::AlreadyDecided)));
    assert_eq!(PurchaseOrderStatus::parse("open"), Some(PurchaseOrderStatus::Open));
}

#[test]
fn production_task_status_lifecycle() {
    let t = create_production_task(&CreateProductionTaskRequest { title: String::from("Cut panels") }, Some(project()), &all_ws(), &roles(&[Role::Delivery]), USER, 4)
        .unwrap();
    assert_eq!(t.status, ProductionStatus::NotStarted);
    let bad = update_production_task_status(&ProductionTaskUpdateStatusRequest { status: String::from("done") }, Some(t), Some(project()), &roles(&[Role::Delivery]), USER);
    assert_eq!(bad.err(), Some(ApiError::BadRequest(BadRequest::InvalidStatus)));
    let going = update_production_task_status(&ProductionTaskUpdateStatusRequest { status: String::from("in_progress") }, Some(t), Some(project()), &roles(&[Role::Delivery]), USER)
        .unwrap();
    assert_eq!(going.status, ProductionStatus::InProgress);
    let finished = update_production_task_status(&ProductionTaskUpdateStatusRequest { status: String::from("completed") }, Some(going), Some(project()), &roles(&[Role::Delivery]), USER)
        .unwrap();
    assert_eq!(finished.status, ProductionStatus::Completed);
}

#[test]
fn site_task_status_lifecycle() {
    let created = create_site_task(&CreateSiteTaskRequest { title: String::from("Electrical rough-in") }, Some(project()), &all_ws(), &roles(&[Role::Delivery]), USER, 20, 21)
        .unwrap();
    assert_ne!(created.task.id, created.schedule_task.id);
    assert_eq!(created.schedule_task.workstream_type, WorkstreamType::SiteExecution);
    assert_eq!(created.schedule_task.status, TaskStatus::NotStarted);
    assert_eq!(created.schedule_task.site_task_id, Some(created.task.id));
    assert_eq!(created.title, "Electrical rough-in");
    let bad = update_site_task_status(&SiteTaskUpdateStatusRequest { status: String::from("not_a_real_status") }, Some(created.task), Some(project()), Some(created.schedule_task), &roles(&[Role::Delivery]), USER);
    assert_eq!(bad.err(), Some(ApiError::BadRequest(BadRequest::InvalidStatus)));
    let done = update_site_task_status(&SiteTaskUpdateStatusRequest { status: String::from("done") }, Some(created.task), Some(project()), Some(created.schedule_task), &roles(&[Role::Delivery]), USER)
        .unwrap();
    assert_eq!(done.task.status, TaskStatus::Done);
    assert_eq!(done.schedule_task.unwrap().status, TaskStatus::Done);
}

#[test]
fn punch_list_and_site_queries() {
    let d = roles(&[Role::Delivery]);
    let item = create_punch_list_item(&CreatePunchListItemRequest { description: String::from("Paint chip") }, Some(project()), &all_ws(), &d, USER, 30).unwrap();
    assert_eq!(item.status, PunchStatus::Open);
    let closed = close_punch_list_item(Some(item), Some(project()), &d, USER).unwrap();
    assert_eq!(closed.status, PunchStatus::Closed);
    assert_eq!(close_punch_list_item(Some(closed), Some(project()), &d, USER).err(), Some(ApiError::BadRequest(BadRequest::AlreadyClosed)));
    let blank = create_site_query(&CreateSiteQueryRequest { subject: String::from("Tiles"), question: String::from(" ") }, Some(project()), &all_ws(), &d, USER, 31);
    assert_eq!(blank.err(), Some(ApiError::BadRequest(BadRequest::SubjectAndQuestionRequired)));
    let q = create_site_query(&CreateSiteQueryRequest { subject: String::from("Tiles"), question: String::from("Which grout?") }, Some(project()), &all_ws(), &d, USER, 31).unwrap();
    let answered = answer_site_query(&AnswerSiteQueryRequest { answer: String::from("Grey") }, Some(q), Some(project()), &d, USER).unwrap();
    assert_eq!(answered.status, QueryStatus::Answered);
    let again = answer_site_query(&AnswerSiteQueryRequest { answer: String::from("White") }, Some(answered), Some(project()), &d, USER);
    assert_eq!(again.err(), Some(ApiError::BadRequest(BadRequest::AlreadyAnswered)));
    let log = create_daily_log(&CreateDailyLogRequest { log_date: 739800, notes: String::from("Poured slab") }, Some(project()), &all_ws(), &d, USER, 32).unwrap();
    assert_eq!(log.log_date, 739800);
    let outsider = create_daily_log(&CreateDailyLogRequest { log_date: 739800, notes: String::from("x") }, Some(project()), &all_ws(), &roles(&[Role::Finance]), USER, 33);
    assert_eq!(outsider.err(), Some(ApiError::Forbidden));
}

#[test]
fn design_revision_lifecycle_submit_approve_reject() {
    let sd = roles(&[Role::SalesDesign]);
    let asset = create_design_asset(&CreateDesignAssetRequest { title: String::from("Living room") }, Some(project()), &all_ws(), &sd, USER, 40).unwrap();
    let rev1 = submit_design_revision(&SubmitRevisionRequest { notes: None }, Some(asset), Some(project()), &vec![], &sd, USER, 41, 1000)
        .unwrap();
    assert_eq!(rev1.revision.version, 1);
    assert_eq!(rev1.revision.status, RevisionStatus::Submitted);
    assert_eq!((rev1.revision.submitted_by, rev1.revision.submitted_at), (USER, 1000));
    assert_eq!(rev1.revision.decided_by, None);
    assert_eq!(rev1.notes, None);
    let rework = DecisionRequest { notes: Some(String::from("needs rework")) };
    let rejected = decide_revision(&rework, Some(rev1.revision), Some(asset), Some(project()), CLIENT, 77, false, 2000).unwrap();
    assert_eq!(rejected.revision.status, RevisionStatus::Rejected);
    assert_eq!((rejected.revision.decided_by, rejected.revision.decided_at), (Some(77), Some(2000)));
    assert_eq!(rejected.decision_notes, Some(String::from("needs rework")));
    let none = DecisionRequest { notes: None };
    let redecide = decide_revision(&none, Some(rejected.revision), Some(asset), Some(project()), CLIENT, 77, true, 2001);
    assert_eq!(redecide.err(), Some(ApiError::BadRequest(BadRequest::AlreadyDecided)));
    let history: Vec<DesignRevision> = vec![rejected.revision];
    let rev2 = submit_design_revision(&SubmitRevisionRequest { notes: Some(String::from("v2")) }, Some(asset), Some(project()), &history, &sd, USER, 42, 3000)
        .unwrap();
    assert_eq!(rev2.revision.version, 2);
    assert_eq!(rev2.notes, Some(String::from("v2")));
    let approved = decide_revision(&none, Some(rev2.revision), Some(asset), Some(project()), CLIENT, 77, true, 4000).unwrap();
    assert_eq!(approved.revision.status, RevisionStatus::Approved);
    assert_eq!(approved.revision.decided_by, Some(77));
    let stranger = decide_revision(&none, Some(rev2.revision), Some(asset), Some(project()), CLIENT + 1, 78, true, 4000);
    assert_eq!(stranger.err(), Some(ApiError::NotFound));
}

#[test]
fn lead_creation_requires_sales_design_role() {
    let req = CreateLeadRequest { business_unit_id: BU, client_id: CLIENT, title: String::from("New enquiry") };
    assert_eq!(create_lead(&req, &roles(&[Role::Delivery]), USER, 1).err(), Some(ApiError::Forbidden));
    let lead = create_lead(&req, &roles(&[Role::Delivery, Role::SalesDesign]), USER, 1).unwrap();
    assert_eq!(lead.status, LeadStatus::New);
}

#[test]
fn lead_conversion_creates_project_once() {
    let lead = create_lead(&CreateLeadRequest { business_unit_id: BU, client_id: CLIENT, title: String::from("Villa") }, &roles(&[Role::SalesDesign]), USER, 1)
        .unwrap();
    let req = ConvertLeadRequest { project_name: String::from("Villa fit-out"), workstreams: vec![WorkstreamType::Design], billing_method: default_billing_method() };
    let c = convert_lead(&req, Some(lead), &roles(&[Role::SalesDesign]), USER, 500).unwrap();
    assert_eq!(c.project.workstream_status, WorkstreamStatus::NotStarted);
    assert_eq!(c.project.project, Project { id: 500, business_unit_id: BU, client_id: CLIENT, billing_method: BillingMethod::Milestone });
    assert_eq!(c.lead.status, LeadStatus::Converted);
    assert_eq!(c.lead.converted_project_id, Some(500));
    let again = convert_lead(&req, Some(c.lead), &roles(&[Role::SalesDesign]), USER, 501);
    assert_eq!(again.err(), Some(ApiError::BadRequest(BadRequest::LeadAlreadyConverted)));
    let no_ws = ConvertLeadRequest { project_name: String::from("X"), workstreams: vec![], billing_method: String::from("milestone") };
    assert_eq!(convert_lead(&no_ws, Some(lead), &roles(&[Role::SalesDesign]), USER, 502).err(), Some(ApiError::BadRequest(BadRequest::AtLeastOneWorkstream)));
}

#[test]
fn project_creation_validates_and_defaults_billing_method() {
    assert_eq!(default_billing_method(), "milestone");
    let req = CreateProjectRequest {
        name: String::from("Civil RA-bill Project"),
        business_unit_id: BU,
        client_id: CLIENT,
        workstreams: vec![WorkstreamType::SiteExecution],
        billing_method: String::from("progressive"),
    };
    let p = create_project(&req, 3).unwrap();
    assert_eq!(p.project.billing_method, BillingMethod::Progressive);
    let bad = CreateProjectRequest { billing_method: String::from("hourly"), ..req };
    assert_eq!(create_project(&bad, 3).err(), Some(ApiError::BadRequest(BadRequest::InvalidBillingMethod)));
}

#[test]
fn project_visibility_is_scoped_to_business_unit_membership() {
    let p1 = Project { id: 1, business_unit_id: 100, client_id: CLIENT, billing_method: BillingMethod::Milestone };
    let p2 = Project { id: 2, business_unit_id: 200, client_id: CLIENT, billing_method: BillingMethod::Milestone };
    let owner = vec![RoleAssignment { user_id: USER, business_unit_id: 100, role: Role::SalesDesign }];
    assert_eq!(list_projects(&vec![p1, p2], &owner, USER), vec![p1]);
    assert_eq!(get_project(Some(p2), &owner, USER).err(), Some(ApiError::Forbidden));
    assert_eq!(get_project(Some(p1), &owner, USER), Ok(p1));
    assert_eq!(get_project(None, &owner, USER).err(), Some(ApiError::NotFound));
    assert_eq!(accessible_business_units(&owner, USER, None), vec![100]);
    assert_eq!(list_my_projects(&vec![p1, p2], CLIENT), vec![p1, p2]);
    assert!(list_my_projects(&vec![p1, p2], CLIENT + 1).is_empty());
}

#[test]
fn workstream_specific_records_need_the_workstream_enabled() {
    let design_only = vec![WorkstreamType::Design];
    let missing = Some(ApiError::BadRequest(BadRequest::WorkstreamNotEnabled));
    let d = roles(&[Role::Delivery]);
    let site = create_site_task(&CreateSiteTaskRequest { title: String::from("Rough-in") }, Some(project()), &design_only, &d, USER, 20, 21);
    assert_eq!(site.err(), missing);
    let production = create_production_task(&CreateProductionTaskRequest { title: String::from("Cut") }, Some(project()), &design_only, &d, USER, 4);
    assert_eq!(production.err(), missing);
    let log = create_daily_log(&CreateDailyLogRequest { log_date: 739800, notes: String::from("x") }, Some(project()), &vec![], &d, USER, 5);
    assert_eq!(log.err(), missing);
    let asset = create_design_asset(&CreateDesignAssetRequest { title: String::from("Hall") }, Some(project()), &vec![WorkstreamType::SiteExecution], &roles(&[Role::SalesDesign]), USER, 6);
    assert_eq!(asset.err(), missing);
    let ok = create_design_asset(&CreateDesignAssetRequest { title: String::from("Hall") }, Some(project()), &design_only, &roles(&[Role::SalesDesign]), USER, 6);
    assert!(ok.is_ok());
    // The role check comes first.
    let outsider = create_site_task(&CreateSiteTaskRequest { title: String::from("Rough-in") }, Some(project()), &design_only, &roles(&[Role::Finance]), USER, 20, 21);
    assert_eq!(outsider.err(), Some(ApiError::Forbidden));
}
