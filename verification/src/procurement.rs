//! Vendors and purchase orders: creation, the approval decision and
//! delivery.
use vstd::prelude::*;
use crate::authz::{
    holds_any_role, holds_role, require_any_business_unit_role, require_project_business_unit_role, require_project_workstream,
    RoleAssignment,
};
use crate::decimal::{decimal_product, prod_exact, prod_fits, Dec};
use crate::error::{ApiError, BadRequest};
use crate::project::Project;
use crate::schedule::{Role, WorkstreamType};
use crate::text::{blank, is_blank, str_is};

verus! {

/// A request to record a vendor.
pub struct CreateVendorRequest {
    pub name: String,
    pub contact_email: Option<String>,
    pub contact_phone: Option<String>,
}

/// A vendor.
#[derive(Clone, Copy, Debug, PartialEq, Eq, Structural)]
pub struct Vendor {
    pub id: u128,
}

/// Records a vendor (id `id`): the name must not be blank and the caller
/// must be a tenant admin or hold the delivery role in some business unit.
pub fn create_vendor(
    req: &CreateVendorRequest,
    assignments: &Vec<RoleAssignment>,
    user_id: u128,
    is_tenant_admin: bool,
    id: u128,
) -> (r: Result<Vendor, ApiError>)
    ensures
        r == (if blank(req.name@) {
            Err(ApiError::BadRequest(BadRequest::NameRequired))
        } else if !(is_tenant_admin || holds_any_role(assignments@, user_id, Some(Role::Delivery))) {
            Err(ApiError::Forbidden)
        } else {
            Ok(Vendor { id })
        }),
{
    if is_blank(req.name.as_str()) {
        return Err(ApiError::BadRequest(BadRequest::NameRequired));
    }
    match require_any_business_unit_role(assignments, user_id, is_tenant_admin, Some(Role::Delivery)) {
        Err(e) => Err(e),
        Ok(()) => Ok(Vendor { id }),
    }
}

/// Where a purchase order stands.
#[derive(Clone, Copy, Debug, PartialEq, Eq, Structural)]
pub enum PurchaseOrderStatus {
    PendingApproval,
    Open,
    Rejected,
    Delivered,
}

/// The status a stored name denotes.
pub open spec fn spec_parse_po_status(s: Seq<char>) -> Option<PurchaseOrderStatus> {
    if s == "pending_approval"@ {
        Some(PurchaseOrderStatus::PendingApproval)
    } else if s == "open"@ {
        Some(PurchaseOrderStatus::Open)
    } else if s == "rejected"@ {
        Some(PurchaseOrderStatus::Rejected)
    } else if s == "delivered"@ {
        Some(PurchaseOrderStatus::Delivered)
    } else {
        None
    }
}

impl PurchaseOrderStatus {
    /// Reads a stored status name.
    pub fn parse(s: &str) -> (r: Option<PurchaseOrderStatus>)
        ensures
            r == spec_parse_po_status(s@),
    {
        if str_is(s, "pending_approval") {
            Some(PurchaseOrderStatus::PendingApproval)
        } else if str_is(s, "open") {
            Some(PurchaseOrderStatus::Open)
        } else if str_is(s, "rejected") {
            Some(PurchaseOrderStatus::Rejected)
        } else if str_is(s, "delivered") {
            Some(PurchaseOrderStatus::Delivered)
        } else {
            None
        }
    }
}

/// A purchase order's record: its project, vendor and status, who raised
/// it, who decided it and when, and when it was delivered (times in
/// microseconds since the Unix epoch).
#[derive(Clone, Copy, Debug, PartialEq, Eq, Structural)]
pub struct PurchaseOrder {
    pub id: u128,
    pub project_id: u128,
    pub vendor_id: u128,
    pub status: PurchaseOrderStatus,
    pub created_by: u128,
    pub decided_by: Option<u128>,
    pub decided_at: Option<i64>,
    pub delivered_at: Option<i64>,
}

/// One requested line of a purchase order.
#[derive(Debug)]
pub struct PoLineItemInput {
    pub quotation_line_item_id: Option<u128>,
    pub description: String,
    pub quantity: Dec,
    pub unit: String,
    pub unit_rate: Dec,
}

/// A request to raise a purchase order against a project.
pub struct CreatePurchaseOrderRequest {
    pub vendor_id: u128,
    pub title: String,
    pub line_items: Vec<PoLineItemInput>,
}

/// A purchase order with its lines' amounts, in request order.
pub struct PurchaseOrderResponse {
    pub purchase_order: PurchaseOrder,
    pub line_amounts: Vec<Dec>,
}

/// Every line's amount (quantity * rate, as `rust_decimal` computes it)
/// can be computed without overflow.
pub open spec fn po_amounts_computable(lines: Seq<PoLineItemInput>) -> bool {
    forall|i: int| 0 <= i < lines.len() ==> (decimal_product(#[trigger] lines[i].quantity@, lines[i].unit_rate@) is Some)
}

/// What raising a purchase order decides, in the order the checks are made.
pub open spec fn purchase_order_outcome(
    req: CreatePurchaseOrderRequest,
    assignments: Seq<RoleAssignment>,
    user_id: u128,
    project: Option<Project>,
    enabled_workstreams: Seq<WorkstreamType>,
    vendor_exists: bool,
) -> Result<(), ApiError> {
    if blank(req.title@) {
        Err(ApiError::BadRequest(BadRequest::TitleRequired))
    } else if req.line_items@.len() == 0 {
        Err(ApiError::BadRequest(BadRequest::AtLeastOneLineItem))
    } else {
        match project {
            None => Err(ApiError::NotFound),
            Some(p) => if !holds_role(assignments, user_id, p.business_unit_id, Some(Role::Delivery)) {
                Err(ApiError::Forbidden)
            } else if !enabled_workstreams.contains(WorkstreamType::Procurement) {
                Err(ApiError::BadRequest(BadRequest::WorkstreamNotEnabled))
            } else if !vendor_exists {
                Err(ApiError::BadRequest(BadRequest::VendorNotFound))
            } else if !po_amounts_computable(req.line_items@) {
                Err(ApiError::BadRequest(BadRequest::AmountOutOfRange))
            } else {
                Ok(())
            },
        }
    }
}

/// Raises a purchase order with the given fresh id: refused as
/// `purchase_order_outcome` says (the caller needs the delivery role in the
/// project's business unit, procurement must be among the project's
/// `enabled_workstreams`, and the vendor must exist); otherwise the order is
/// open and each line's amount is quantity * rate, as `rust_decimal`
/// computes it (exact wherever no rounding is needed).
pub fn create_purchase_order(
    req: &CreatePurchaseOrderRequest,
    assignments: &Vec<RoleAssignment>,
    user_id: u128,
    project: Option<Project>,
    enabled_workstreams: &Vec<WorkstreamType>,
    vendor_exists: bool,
    id: u128,
) -> (r: Result<PurchaseOrderResponse, ApiError>)
    ensures
        match purchase_order_outcome(*req, assignments@, user_id, project, enabled_workstreams@, vendor_exists) {
            Err(e) => r matches Err(e2) && e2 == e,
            Ok(()) => r matches Ok(resp) && resp.purchase_order == (PurchaseOrder {
                id,
                project_id: project.unwrap().id,
                vendor_id: req.vendor_id,
                status: PurchaseOrderStatus::Open,
                created_by: user_id,
                decided_by: None,
                decided_at: None,
                delivered_at: None,
            }) && resp.line_amounts@.len() == req.line_items@.len() && forall|i: int|
                0 <= i < req.line_items@.len() ==> {
                    &&& Some((#[trigger] resp.line_amounts@[i])@) == decimal_product(
                        req.line_items@[i].quantity@,
                        req.line_items@[i].unit_rate@,
                    )
                    &&& prod_fits(req.line_items@[i].quantity@, req.line_items@[i].unit_rate@) ==> resp.line_amounts@[i]@
                        == prod_exact(req.line_items@[i].quantity@, req.line_items@[i].unit_rate@)
                },
        },
{
    if is_blank(req.title.as_str()) {
        return Err(ApiError::BadRequest(BadRequest::TitleRequired));
    }
    if req.line_items.len() == 0 {
        return Err(ApiError::BadRequest(BadRequest::AtLeastOneLineItem));
    }
    let project_bu = match project {
        Some(p) => Some(p.business_unit_id),
        None => None,
    };
    match require_project_business_unit_role(assignments, user_id, project_bu, Some(Role::Delivery)) {
        Err(e) => return Err(e),
        Ok(()) => {},
    }
    let p = project.unwrap();
    match require_project_workstream(enabled_workstreams, WorkstreamType::Procurement) {
        Err(e) => return Err(e),
        Ok(()) => {},
    }
    if !vendor_exists {
        return Err(ApiError::BadRequest(BadRequest::VendorNotFound));
    }
    let mut amounts: Vec<Dec> = Vec::new();
    let mut k: usize = 0;
    while k < req.line_items.len()
        invariant
            k <= req.line_items@.len(),
            amounts@.len() == k,
            forall|j: int|
                0 <= j < k ==> {
                    &&& Some((#[trigger] amounts@[j])@) == decimal_product(
                        req.line_items@[j].quantity@,
                        req.line_items@[j].unit_rate@,
                    )
                    &&& prod_fits(req.line_items@[j].quantity@, req.line_items@[j].unit_rate@) ==> amounts@[j]@
                        == prod_exact(req.line_items@[j].quantity@, req.line_items@[j].unit_rate@)
                },
            enabled_workstreams@.contains(WorkstreamType::Procurement),
            !blank(req.title@),
            req.line_items@.len() > 0,
            project == Some(p),
            holds_role(assignments@, user_id, p.business_unit_id, Some(Role::Delivery)),
            vendor_exists,
        decreases req.line_items@.len() - k,
    {
        let li = &req.line_items[k];
        match li.quantity.rounded_mul(&li.unit_rate) {
            None => {
                proof {
                    assert(decimal_product(req.line_items@[k as int].quantity@, req.line_items@[k as int].unit_rate@) is None);
                    assert(!po_amounts_computable(req.line_items@));
                }
                return Err(ApiError::BadRequest(BadRequest::AmountOutOfRange));
            },
            Some(a) => amounts.push(a),
        }
        k = k + 1;
    }
    proof {
        assert forall|i: int| 0 <= i < req.line_items@.len() implies (decimal_product(
            #[trigger] req.line_items@[i].quantity@,
            req.line_items@[i].unit_rate@,
        ) is Some) by {
            assert(Some(amounts@[i]@) == decimal_product(req.line_items@[i].quantity@, req.line_items@[i].unit_rate@));
        }
    }
    Ok(
        PurchaseOrderResponse {
            purchase_order: PurchaseOrder {
                id,
                project_id: p.id,
                vendor_id: req.vendor_id,
                status: PurchaseOrderStatus::Open,
                created_by: user_id,
                decided_by: None,
                decided_at: None,
                delivered_at: None,
            },
            line_amounts: amounts,
        },
    )
}

/// A decision note on a purchase order.
pub struct PoDecisionRequest {
    pub notes: Option<String>,
}

/// Approves (the order opens) or rejects a purchase order awaiting
/// approval, at `now`. `po` is the order asked for (`None`: not found) and
/// `project_business_unit` its project's business unit; the caller needs
/// the delivery role there, and is recorded as the decider.
pub fn decide_purchase_order(
    po: Option<PurchaseOrder>,
    project_business_unit: Option<u128>,
    assignments: &Vec<RoleAssignment>,
    user_id: u128,
    approve: bool,
    now: i64,
) -> (r: Result<PurchaseOrder, ApiError>)
    ensures
        r == (match po {
            None => Err(ApiError::NotFound),
            Some(o) => match project_business_unit {
                None => Err(ApiError::NotFound),
                Some(bu) => if !holds_role(assignments@, user_id, bu, Some(Role::Delivery)) {
                    Err(ApiError::Forbidden)
                } else if o.status != PurchaseOrderStatus::PendingApproval {
                    Err(ApiError::BadRequest(BadRequest::AlreadyDecided))
                } else {
                    Ok(
                        PurchaseOrder {
                            status: if approve {
                                PurchaseOrderStatus::Open
                            } else {
                                PurchaseOrderStatus::Rejected
                            },
                            decided_by: Some(user_id),
                            decided_at: Some(now),
                            ..o
                        },
                    )
                },
            },
        }),
{
    let o = match po {
        None => return Err(ApiError::NotFound),
        Some(o) => o,
    };
    match require_project_business_unit_role(assignments, user_id, project_business_unit, Some(Role::Delivery)) {
        Err(e) => return Err(e),
        Ok(()) => {},
    }
    if o.status != PurchaseOrderStatus::PendingApproval {
        return Err(ApiError::BadRequest(BadRequest::AlreadyDecided));
    }
    let status = if approve {
        PurchaseOrderStatus::Open
    } else {
        PurchaseOrderStatus::Rejected
    };
    Ok(PurchaseOrder { status, decided_by: Some(user_id), decided_at: Some(now), ..o })
}

/// Marks an open purchase order delivered at `now`; refused for any other
/// status, and unless the caller holds the delivery role in the project's
/// business unit.
pub fn mark_purchase_order_delivered(
    po: Option<PurchaseOrder>,
    project_business_unit: Option<u128>,
    assignments: &Vec<RoleAssignment>,
    user_id: u128,
    now: i64,
) -> (r: Result<PurchaseOrder, ApiError>)
    ensures
        r == (match po {
            None => Err(ApiError::NotFound),
            Some(o) => match project_business_unit {
                None => Err(ApiError::NotFound),
                Some(bu) => if !holds_role(assignments@, user_id, bu, Some(Role::Delivery)) {
                    Err(ApiError::Forbidden)
                } else if o.status != PurchaseOrderStatus::Open {
                    Err(ApiError::BadRequest(BadRequest::PurchaseOrderNotOpen))
                } else {
                    Ok(PurchaseOrder { status: PurchaseOrderStatus::Delivered, delivered_at: Some(now), ..o })
                },
            },
        }),
{
    let o = match po {
        None => return Err(ApiError::NotFound),
        Some(o) => o,
    };
    match require_project_business_unit_role(assignments, user_id, project_business_unit, Some(Role::Delivery)) {
        Err(e) => return Err(e),
        Ok(()) => {},
    }
    if o.status != PurchaseOrderStatus::Open {
        return Err(ApiError::BadRequest(BadRequest::PurchaseOrderNotOpen));
    }
    Ok(PurchaseOrder { status: PurchaseOrderStatus::Delivered, delivered_at: Some(now), ..o })
}

} // verus!
