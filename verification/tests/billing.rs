use api::authz::RoleAssignment;
use api::billing::{
    calculate_invoice, calculate_invoice_with_fraction, checked_calculate_invoice, complete_milestone, create_invoice, create_milestone, mark_invoice_paid,
    profile_for, CreateInvoiceRequest, CreateMilestoneRequest, IndiaGstProfile, Invoice, InvoiceStatus, Milestone,
    MilestoneStatus, RegionProfile,
};
use api::decimal::Dec;
use api::error::{ApiError, BadRequest};
use api::project::{BillingMethod, Project};
use api::schedule::Role;

fn dec(m: i128, s: u32) -> Dec {
    Dec::new(m, s).unwrap()
}

fn repr(d: &Dec) -> (i128, u32) {
    (d.mantissa(), d.scale())
}

const USER: u128 = 7;
const BU: u128 = 100;

fn finance() -> Vec<RoleAssignment> {
    vec![RoleAssignment { user_id: USER, business_unit_id: BU, role: Role::Finance }]
}

fn project(method: BillingMethod) -> Project {
    Project { id: 1, business_unit_id: BU, client_id: 9, billing_method: method }
}

fn milestone_request(milestone_id: u128, base: Dec) -> CreateInvoiceRequest {
    CreateInvoiceRequest {
        billing_method: String::from("milestone"),
        milestone_id: Some(milestone_id),
        base_amount: Some(base),
        certified_value_to_date: None,
        retention_percent: dec(5, 0),
    }
}

fn progressive_request(certified: Dec) -> CreateInvoiceRequest {
    CreateInvoiceRequest {
        billing_method: String::from("progressive"),
        milestone_id: None,
        base_amount: None,
        certified_value_to_date: Some(certified),
        retention_percent: dec(5, 0),
    }
}

#[test]
fn india_profile_taxes_base_at_eighteen_and_two_percent() {
    let t = IndiaGstProfile.compute_tax(&dec(100000, 0));
    assert_eq!(repr(&t.gst_amount), (1800000, 2));
    assert_eq!(repr(&t.gst_tds_amount), (200000, 2));
}

#[test]
fn invoice_figures_for_one_lakh_at_five_percent_retention() {
    let c = calculate_invoice(&profile_for("india"), &dec(100000, 0), &dec(5, 0));
    assert_eq!(repr(&c.gst_amount), (1800000, 2));
    assert_eq!(repr(&c.gst_tds_amount), (200000, 2));
    assert_eq!(repr(&c.retention_amount), (500000, 2));
    assert_eq!(repr(&c.gross_amount), (11800000, 2));
    assert_eq!(repr(&c.net_payable), (11100000, 2));
}

fn value_at_28(d: &Dec) -> i128 {
    d.mantissa() * 10i128.pow(28 - d.scale())
}

#[test]
fn invoice_figures_past_28_places_are_rescaled() {
    let tiny = Dec::new(5, 27).unwrap();
    let c = checked_calculate_invoice(&IndiaGstProfile, &tiny, &dec(0, 0)).expect("computed after rescaling");
    assert_eq!(value_at_28(&c.gst_amount), 9);
    assert_eq!(value_at_28(&c.gst_tds_amount), 1);
    assert_eq!(value_at_28(&c.gross_amount), 59);
    assert_eq!(value_at_28(&c.net_payable), 58);
}

#[test]
fn invoice_figures_refused_on_overflow() {
    let huge = Dec::new(79228162514264337593543950335, 0).unwrap();
    assert!(checked_calculate_invoice(&IndiaGstProfile, &huge, &dec(5, 0)).is_none());
}

#[test]
fn milestone_invoice_is_planned_on_a_completed_milestone() {
    let milestones = vec![Milestone { id: 50, project_id: 1, status: MilestoneStatus::Completed }];
    let plan = create_invoice(
        &milestone_request(50, dec(100000, 0)),
        &finance(),
        USER,
        Some(project(BillingMethod::Milestone)),
        &milestones,
        &vec![],
        Some("india"),
    )
    .unwrap();
    assert_eq!(plan.billing_method, BillingMethod::Milestone);
    assert_eq!(plan.milestone_id, Some(50));
    assert_eq!(plan.status, InvoiceStatus::Raised);
    assert_eq!(repr(&plan.calculation.net_payable), (11100000, 2));
}

#[test]
fn invoice_creation_rejects_duplicate_for_same_milestone() {
    let milestones = vec![Milestone { id: 50, project_id: 1, status: MilestoneStatus::Completed }];
    let existing = vec![Invoice {
        id: 3,
        project_id: 1,
        milestone_id: Some(50),
        billing_method: Some(BillingMethod::Milestone),
        certified_value_to_date: None,
        status: InvoiceStatus::Raised,
    }];
    let r = create_invoice(
        &milestone_request(50, dec(50000, 0)),
        &finance(),
        USER,
        Some(project(BillingMethod::Milestone)),
        &milestones,
        &existing,
        Some("india"),
    );
    assert_eq!(r.err(), Some(ApiError::BadRequest(BadRequest::MilestoneAlreadyInvoiced)));
}

#[test]
fn invoice_on_pending_milestone_is_refused() {
    let milestones = vec![Milestone { id: 50, project_id: 1, status: MilestoneStatus::Pending }];
    let r = create_invoice(
        &milestone_request(50, dec(1000, 0)),
        &finance(),
        USER,
        Some(project(BillingMethod::Milestone)),
        &milestones,
        &vec![],
        Some("india"),
    );
    assert_eq!(r.err(), Some(ApiError::BadRequest(BadRequest::MilestoneNotCompleted)));
}

#[test]
fn invoice_creation_requires_finance_role() {
    let delivery = vec![RoleAssignment { user_id: USER, business_unit_id: BU, role: Role::Delivery }];
    let milestones = vec![Milestone { id: 50, project_id: 1, status: MilestoneStatus::Completed }];
    let r = create_invoice(
        &milestone_request(50, dec(1000, 0)),
        &delivery,
        USER,
        Some(project(BillingMethod::Milestone)),
        &milestones,
        &vec![],
        Some("india"),
    );
    assert_eq!(r.err(), Some(ApiError::Forbidden));
}

#[test]
fn invoice_errors_in_check_order() {
    let mut req = milestone_request(50, dec(1000, 0));
    req.retention_percent = dec(101, 0);
    let r = create_invoice(&req, &finance(), USER, None, &vec![], &vec![], Some("india"));
    assert_eq!(r.err(), Some(ApiError::BadRequest(BadRequest::RetentionOutOfRange)));
    let r = create_invoice(&milestone_request(50, dec(1000, 0)), &finance(), USER, None, &vec![], &vec![], Some("india"));
    assert_eq!(r.err(), Some(ApiError::NotFound));
    let mut req = milestone_request(50, dec(0, 0));
    let r = create_invoice(&req, &finance(), USER, Some(project(BillingMethod::Milestone)), &vec![], &vec![], Some("india"));
    assert_eq!(r.err(), Some(ApiError::BadRequest(BadRequest::BaseAmountMustBePositive)));
    req.base_amount = None;
    let r = create_invoice(&req, &finance(), USER, Some(project(BillingMethod::Milestone)), &vec![], &vec![], Some("india"));
    assert_eq!(r.err(), Some(ApiError::BadRequest(BadRequest::BaseAmountRequired)));
    req.milestone_id = None;
    let r = create_invoice(&req, &finance(), USER, Some(project(BillingMethod::Milestone)), &vec![], &vec![], Some("india"));
    assert_eq!(r.err(), Some(ApiError::BadRequest(BadRequest::MilestoneIdRequired)));
    let r = create_invoice(
        &milestone_request(51, dec(1000, 0)),
        &finance(),
        USER,
        Some(project(BillingMethod::Milestone)),
        &vec![],
        &vec![],
        Some("india"),
    );
    assert_eq!(r.err(), Some(ApiError::BadRequest(BadRequest::MilestoneNotFound)));
    let other = vec![Milestone { id: 51, project_id: 2, status: MilestoneStatus::Completed }];
    let r = create_invoice(
        &milestone_request(51, dec(1000, 0)),
        &finance(),
        USER,
        Some(project(BillingMethod::Milestone)),
        &other,
        &vec![],
        Some("india"),
    );
    assert_eq!(r.err(), Some(ApiError::BadRequest(BadRequest::MilestoneOfOtherProject)));
    let mut bad_method = milestone_request(51, dec(1000, 0));
    bad_method.billing_method = String::from("hourly");
    let r = create_invoice(&bad_method, &finance(), USER, Some(project(BillingMethod::Milestone)), &vec![], &vec![], Some("india"));
    assert_eq!(r.err(), Some(ApiError::BadRequest(BadRequest::InvalidBillingMethod)));
    let ok_milestones = vec![Milestone { id: 51, project_id: 1, status: MilestoneStatus::Completed }];
    let r = create_invoice(
        &milestone_request(51, dec(1000, 0)),
        &finance(),
        USER,
        Some(project(BillingMethod::Milestone)),
        &ok_milestones,
        &vec![],
        None,
    );
    assert_eq!(r.err(), Some(ApiError::Internal));
}

#[test]
fn progressive_billing_computes_incremental_base_and_matches_hand_computed_figures() {
    let p = project(BillingMethod::Progressive);
    let first = create_invoice(&progressive_request(dec(500000, 0)), &finance(), USER, Some(p), &vec![], &vec![], Some("india"))
        .unwrap();
    assert_eq!(repr(&first.base_amount), (500000, 0));
    assert_eq!(repr(&first.calculation.gst_amount), (9000000, 2));
    assert_eq!(repr(&first.calculation.gst_tds_amount), (1000000, 2));
    assert_eq!(repr(&first.calculation.retention_amount), (2500000, 2));
    let recorded = vec![Invoice {
        id: 10,
        project_id: 1,
        milestone_id: None,
        billing_method: Some(BillingMethod::Progressive),
        certified_value_to_date: first.certified_value_to_date,
        status: InvoiceStatus::Raised,
    }];
    let second = create_invoice(&progressive_request(dec(800000, 0)), &finance(), USER, Some(p), &vec![], &recorded, Some("india"))
        .unwrap();
    assert_eq!(repr(&second.base_amount), (300000, 0));
    assert_eq!(repr(&second.calculation.gst_amount), (5400000, 2));
    let mut both = recorded;
    both.push(Invoice {
        id: 11,
        project_id: 1,
        milestone_id: None,
        billing_method: Some(BillingMethod::Progressive),
        certified_value_to_date: second.certified_value_to_date,
        status: InvoiceStatus::Raised,
    });
    let stale = create_invoice(&progressive_request(dec(800000, 0)), &finance(), USER, Some(p), &vec![], &both, Some("india"));
    assert_eq!(stale.err(), Some(ApiError::BadRequest(BadRequest::CertifiedValueNotIncreasing)));
}

#[test]
fn progressive_billing_refused_on_milestone_project() {
    let r = create_invoice(
        &progressive_request(dec(100000, 0)),
        &finance(),
        USER,
        Some(project(BillingMethod::Milestone)),
        &vec![],
        &vec![],
        Some("india"),
    );
    assert_eq!(r.err(), Some(ApiError::BadRequest(BadRequest::ProjectNotProgressive)));
    let mut req = progressive_request(dec(1, 0));
    req.certified_value_to_date = None;
    let r = create_invoice(&req, &finance(), USER, Some(project(BillingMethod::Progressive)), &vec![], &vec![], Some("india"));
    assert_eq!(r.err(), Some(ApiError::BadRequest(BadRequest::CertifiedValueRequired)));
}

#[test]
fn prior_progressive_value_ignores_other_projects_and_milestone_bills() {
    let others = vec![
        Invoice {
            id: 1,
            project_id: 2,
            milestone_id: None,
            billing_method: Some(BillingMethod::Progressive),
            certified_value_to_date: Some(dec(900000, 0)),
            status: InvoiceStatus::Raised,
        },
        Invoice {
            id: 2,
            project_id: 1,
            milestone_id: Some(4),
            billing_method: Some(BillingMethod::Milestone),
            certified_value_to_date: None,
            status: InvoiceStatus::Raised,
        },
    ];
    let plan = create_invoice(
        &progressive_request(dec(200000, 0)),
        &finance(),
        USER,
        Some(project(BillingMethod::Progressive)),
        &vec![],
        &others,
        Some("india"),
    )
    .unwrap();
    assert_eq!(repr(&plan.base_amount), (200000, 0));
}

#[test]
fn milestone_lifecycle_create_complete_and_complete_again() {
    let a = vec![RoleAssignment { user_id: USER, business_unit_id: BU, role: Role::Delivery }];
    let m = create_milestone(
        &CreateMilestoneRequest { title: String::from("Phase 1") },
        &a,
        USER,
        Some(project(BillingMethod::Milestone)),
        77,
    )
    .unwrap();
    assert_eq!(m.status, MilestoneStatus::Pending);
    let blank = create_milestone(&CreateMilestoneRequest { title: String::from("  ") }, &a, USER, None, 78);
    assert_eq!(blank.err(), Some(ApiError::BadRequest(BadRequest::TitleRequired)));
    let done = complete_milestone(Some(m), Some(BU), &a, USER).unwrap();
    assert_eq!(done.status, MilestoneStatus::Completed);
    let again = complete_milestone(Some(done), Some(BU), &a, USER);
    assert_eq!(again.err(), Some(ApiError::BadRequest(BadRequest::MilestoneAlreadyCompleted)));
    assert_eq!(MilestoneStatus::parse("completed"), MilestoneStatus::Completed);
    assert_eq!(MilestoneStatus::parse("pending"), MilestoneStatus::Pending);
}

#[test]
fn invoice_paid_once() {
    let inv = Invoice {
        id: 3,
        project_id: 1,
        milestone_id: Some(50),
        billing_method: Some(BillingMethod::Milestone),
        certified_value_to_date: None,
        status: InvoiceStatus::Raised,
    };
    let paid = mark_invoice_paid(Some(inv), Some(BU), &finance(), USER).unwrap();
    assert_eq!(paid.status, InvoiceStatus::Paid);
    assert_eq!(
        mark_invoice_paid(Some(paid), Some(BU), &finance(), USER).err(),
        Some(ApiError::BadRequest(BadRequest::InvoiceAlreadyPaid))
    );
    assert_eq!(mark_invoice_paid(None, Some(BU), &finance(), USER).err(), Some(ApiError::NotFound));
}

#[test]
fn invoice_figures_from_a_five_percent_fraction() {
    let c = calculate_invoice_with_fraction(&IndiaGstProfile, &dec(100000, 0), &dec(5, 2)).unwrap();
    assert_eq!(repr(&c.retention_amount), (500000, 2));
    assert_eq!(repr(&c.gross_amount), (11800000, 2));
    assert_eq!(repr(&c.net_payable), (11100000, 2));
}
