//! Versioned quotations (bills of quantities) and the client's decision on
//! them: each new quotation is the project's next version, and approving one
//! supersedes every other open quotation of the project, so a project has at
//! most one approved baseline.
use vstd::prelude::*;
use crate::decimal::{decimal_product, prod_exact, prod_fits, units, Dec, DecView};
use crate::error::{ApiError, BadRequest};
use crate::lookup::{index_of_id, lemma_position_of, position_of, Keyed};
use crate::versions::{compute_next_version, next_version, versions_below_max, Versioned};
use crate::project::Project;
use crate::text::str_is;

verus! {

/// Where a quotation stands.
#[derive(Clone, Copy, Debug, PartialEq, Eq, Structural)]
pub enum QuotationStatus {
    Draft,
    Sent,
    Approved,
    Rejected,
    Superseded,
}

/// The status a stored name denotes.
pub open spec fn spec_parse_quotation_status(s: Seq<char>) -> Option<QuotationStatus> {
    if s == "draft"@ {
        Some(QuotationStatus::Draft)
    } else if s == "sent"@ {
        Some(QuotationStatus::Sent)
    } else if s == "approved"@ {
        Some(QuotationStatus::Approved)
    } else if s == "rejected"@ {
        Some(QuotationStatus::Rejected)
    } else if s == "superseded"@ {
        Some(QuotationStatus::Superseded)
    } else {
        None
    }
}

impl QuotationStatus {
    /// Reads a stored status name.
    pub fn parse(s: &str) -> (r: Option<QuotationStatus>)
        ensures
            r == spec_parse_quotation_status(s@),
    {
        if str_is(s, "draft") {
            Some(QuotationStatus::Draft)
        } else if str_is(s, "sent") {
            Some(QuotationStatus::Sent)
        } else if str_is(s, "approved") {
            Some(QuotationStatus::Approved)
        } else if str_is(s, "rejected") {
            Some(QuotationStatus::Rejected)
        } else if str_is(s, "superseded") {
            Some(QuotationStatus::Superseded)
        } else {
            None
        }
    }
}

/// The fields of a quotation that the rules read.
#[derive(Clone, Copy, Debug, PartialEq, Eq, Structural)]
pub struct Quotation {
    pub id: u128,
    pub project_id: u128,
    pub version: i32,
    pub status: QuotationStatus,
}

impl Keyed for Quotation {
    open spec fn key(&self) -> u128 {
        self.id
    }

    fn id_of(&self) -> (r: u128) {
        self.id
    }
}

impl Versioned for Quotation {
    open spec fn owner(&self) -> u128 {
        self.project_id
    }

    open spec fn version_number(&self) -> i32 {
        self.version
    }

    fn owner_of(&self) -> (r: u128) {
        self.project_id
    }

    fn version_of(&self) -> (r: i32) {
        self.version
    }
}

/// One line of a quotation's bill of quantities.
#[derive(Debug)]
pub struct QuotationLineItem {
    pub id: u128,
    pub quotation_id: u128,
    pub description: String,
    pub quantity: Dec,
    pub unit: String,
    pub unit_rate: Dec,
    pub amount: Dec,
}

impl Keyed for QuotationLineItem {
    open spec fn key(&self) -> u128 {
        self.id
    }

    fn id_of(&self) -> (r: u128) {
        self.id
    }
}

/// A quotation with its lines, as returned to callers.
pub struct QuotationResponse {
    pub quotation: Quotation,
    pub line_items: Vec<QuotationLineItem>,
}

/// One requested line of a new quotation.
#[derive(Debug)]
pub struct LineItemInput {
    pub description: String,
    pub quantity: Dec,
    pub unit: String,
    pub unit_rate: Dec,
}

/// A request for a new quotation version.
pub struct CreateQuotationRequest {
    pub line_items: Vec<LineItemInput>,
}

/// Why a line's quantity and rate are refused: the quantity must be
/// positive and the rate must not be negative.
pub open spec fn line_error(quantity: DecView, unit_rate: DecView) -> Option<BadRequest> {
    if units(quantity) <= 0 {
        Some(BadRequest::QuantityMustBePositive)
    } else if units(unit_rate) < 0 {
        Some(BadRequest::UnitRateMustNotBeNegative)
    } else {
        None
    }
}

/// Checks one line's quantity and rate.
pub fn check_line(quantity: &Dec, unit_rate: &Dec) -> (r: Option<BadRequest>)
    ensures
        r == line_error(quantity@, unit_rate@),
{
    let zero = Dec::zero();
    if quantity.le(&zero) {
        Some(BadRequest::QuantityMustBePositive)
    } else if unit_rate.lt(&zero) {
        Some(BadRequest::UnitRateMustNotBeNegative)
    } else {
        None
    }
}

/// The first refused line of a new quotation, if any.
pub open spec fn first_input_error(lines: Seq<LineItemInput>) -> Option<BadRequest>
    decreases lines.len(),
{
    if lines.len() == 0 {
        None
    } else {
        match first_input_error(lines.drop_last()) {
            Some(e) => Some(e),
            None => line_error(lines.last().quantity@, lines.last().unit_rate@),
        }
    }
}

/// Every line's amount (quantity * rate, as `rust_decimal` computes it) can
/// be computed without overflow.
pub open spec fn amounts_computable(lines: Seq<LineItemInput>) -> bool {
    forall|i: int| 0 <= i < lines.len() ==> (decimal_product(#[trigger] lines[i].quantity@, lines[i].unit_rate@) is Some)
}

/// A new quotation, as planned: the quotation record and each line's
/// amount, in request order.
pub struct QuotationPlan {
    pub quotation: Quotation,
    pub amounts: Vec<Dec>,
}

/// Plans a new quotation version for a project. Refused when there is no
/// line, when a line's quantity is not positive or its rate negative (the
/// first such line decides), when the project does not exist, or when a
/// line's amount overflows. The quotation, with the given fresh id, is a
/// draft at the project's next version; each amount is quantity * rate as
/// `rust_decimal` computes it (exact wherever no rounding is needed).
/// `quotations` holds the project's existing quotations.
pub fn create_quotation(
    req: &CreateQuotationRequest,
    project: Option<Project>,
    quotations: &Vec<Quotation>,
    quotation_id: u128,
) -> (r: Result<QuotationPlan, ApiError>)
    requires
        project matches Some(p) ==> versions_below_max(quotations@, p.id),
    ensures
        req.line_items@.len() == 0 ==> r == Err::<QuotationPlan, ApiError>(
            ApiError::BadRequest(BadRequest::AtLeastOneLineItem),
        ),
        req.line_items@.len() > 0 && first_input_error(req.line_items@) is Some ==> r == Err::<
            QuotationPlan,
            ApiError,
        >(ApiError::BadRequest(first_input_error(req.line_items@).unwrap())),
        req.line_items@.len() > 0 && first_input_error(req.line_items@) is None && project is None ==> r == Err::<
            QuotationPlan,
            ApiError,
        >(ApiError::NotFound),
        req.line_items@.len() > 0 && first_input_error(req.line_items@) is None && project is Some
            && !amounts_computable(req.line_items@) ==> r == Err::<QuotationPlan, ApiError>(
            ApiError::BadRequest(BadRequest::AmountOutOfRange),
        ),
        r is Ok <==> (req.line_items@.len() > 0 && first_input_error(req.line_items@) is None && project is Some
            && amounts_computable(req.line_items@)),
        r matches Ok(plan) ==> {
            &&& plan.quotation == (Quotation {
                id: quotation_id,
                project_id: project.unwrap().id,
                version: next_version(quotations@, project.unwrap().id) as i32,
                status: QuotationStatus::Draft,
            })
            &&& plan.amounts@.len() == req.line_items@.len()
            &&& forall|i: int|
                0 <= i < plan.amounts@.len() ==> {
                    &&& Some((#[trigger] plan.amounts@[i])@) == decimal_product(
                        req.line_items@[i].quantity@,
                        req.line_items@[i].unit_rate@,
                    )
                    &&& prod_fits(req.line_items@[i].quantity@, req.line_items@[i].unit_rate@) ==> plan.amounts@[i]@
                        == prod_exact(req.line_items@[i].quantity@, req.line_items@[i].unit_rate@)
                }
        },
{
    if req.line_items.len() == 0 {
        return Err(ApiError::BadRequest(BadRequest::AtLeastOneLineItem));
    }
    let mut i: usize = 0;
    while i < req.line_items.len()
        invariant
            i <= req.line_items@.len(),
            first_input_error(req.line_items@.take(i as int)) is None,
        decreases req.line_items@.len() - i,
    {
        proof {
            assert(req.line_items@.take(i + 1).drop_last() =~= req.line_items@.take(i as int));
        }
        let li = &req.line_items[i];
        match check_line(&li.quantity, &li.unit_rate) {
            Some(e) => {
                proof {
                    lemma_first_error_prefix(req.line_items@, i + 1);
                }
                return Err(ApiError::BadRequest(e));
            },
            None => {},
        }
        i = i + 1;
    }
    proof {
        assert(req.line_items@.take(req.line_items@.len() as int) =~= req.line_items@);
    }
    let p = match project {
        None => return Err(ApiError::NotFound),
        Some(p) => p,
    };
    let version = compute_next_version(quotations, p.id);
    let mut amounts: Vec<Dec> = Vec::new();
    let mut k: usize = 0;
    while k < req.line_items.len()
        invariant
            k <= req.line_items@.len(),
            amounts@.len() == k,
            forall|j: int|
                0 <= j < k ==> {
                    &&& Some((#[trigger] amounts@[j])@) == decimal_product(
                        req.line_items@[j].quantity@,
                        req.line_items@[j].unit_rate@,
                    )
                    &&& prod_fits(req.line_items@[j].quantity@, req.line_items@[j].unit_rate@) ==> amounts@[j]@
                        == prod_exact(req.line_items@[j].quantity@, req.line_items@[j].unit_rate@)
                },
            req.line_items@.len() > 0,
            first_input_error(req.line_items@) is None,
            project is Some,
        decreases req.line_items@.len() - k,
    {
        let li = &req.line_items[k];
        match li.quantity.rounded_mul(&li.unit_rate) {
            None => {
                proof {
                    assert(!amounts_computable(req.line_items@));
                }
                return Err(ApiError::BadRequest(BadRequest::AmountOutOfRange));
            },
            Some(a) => {
                amounts.push(a);
            },
        }
        k = k + 1;
    }
    proof {
        assert forall|i: int| 0 <= i < req.line_items@.len() implies (decimal_product(
            #[trigger] req.line_items@[i].quantity@,
            req.line_items@[i].unit_rate@,
        ) is Some) by {
            assert(Some(amounts@[i]@) == decimal_product(req.line_items@[i].quantity@, req.line_items@[i].unit_rate@));
        }
    }
    Ok(
        QuotationPlan {
            quotation: Quotation { id: quotation_id, project_id: p.id, version, status: QuotationStatus::Draft },
            amounts,
        },
    )
}

/// A refused line in a prefix is the first refused line of the whole list.
proof fn lemma_first_error_prefix(lines: Seq<LineItemInput>, n: int)
    requires
        0 <= n <= lines.len(),
        first_input_error(lines.take(n)) is Some,
    ensures
        first_input_error(lines) == first_input_error(lines.take(n)),
    decreases lines.len() - n,
{
    if n < lines.len() {
        assert(lines.take(n + 1).drop_last() =~= lines.take(n));
        lemma_first_error_prefix(lines, n + 1);
    } else {
        assert(lines.take(n) =~= lines);
    }
}

/// The quotation is still open for the client's decision.
pub open spec fn undecided(status: QuotationStatus) -> bool {
    status == QuotationStatus::Draft || status == QuotationStatus::Sent
}

/// A quotation that approving another quotation of its project supersedes.
pub open spec fn supersedable(status: QuotationStatus) -> bool {
    status == QuotationStatus::Draft || status == QuotationStatus::Sent || status == QuotationStatus::Approved
}

/// A quotation after the approval of quotation `keep_id` of `project_id`:
/// every other open or approved quotation of that project is superseded.
pub open spec fn superseded_by(q: Quotation, project_id: u128, keep_id: u128) -> Quotation {
    if q.project_id == project_id && q.id != keep_id && supersedable(q.status) {
        Quotation { status: QuotationStatus::Superseded, ..q }
    } else {
        q
    }
}

/// Marks every other open or approved quotation of `project_id` (other than
/// `keep_id`) superseded, leaving the others unchanged.
pub fn supersede_other_quotations(quotations: &mut Vec<Quotation>, project_id: u128, keep_id: u128)
    ensures
        final(quotations)@.len() == old(quotations)@.len(),
        forall|i: int|
            0 <= i < old(quotations)@.len() ==> #[trigger] final(quotations)@[i] == superseded_by(
                old(quotations)@[i],
                project_id,
                keep_id,
            ),
        forall|i: int|
            0 <= i < old(quotations)@.len() ==> {
                let q = old(quotations)@[i];
                let f = #[trigger] final(quotations)@[i];
                &&& (q.project_id != project_id || q.id == keep_id || q.status == QuotationStatus::Rejected
                    || q.status == QuotationStatus::Superseded) ==> f == q
                &&& (q.project_id == project_id && q.id != keep_id && (q.status == QuotationStatus::Draft || q.status
                    == QuotationStatus::Sent || q.status == QuotationStatus::Approved)) ==> f == (Quotation {
                    status: QuotationStatus::Superseded,
                    ..q
                })
            },
{
    let mut i: usize = 0;
    while i < quotations.len()
        invariant
            i <= quotations@.len(),
            quotations@.len() == old(quotations)@.len(),
            forall|j: int| 0 <= j < i ==> #[trigger] quotations@[j] == superseded_by(old(quotations)@[j], project_id, keep_id),
            forall|j: int| i <= j < quotations@.len() ==> #[trigger] quotations@[j] == old(quotations)@[j],
        decreases quotations@.len() - i,
    {
        let q = quotations[i];
        let open_or_approved = match q.status {
            QuotationStatus::Draft | QuotationStatus::Sent | QuotationStatus::Approved => true,
            _ => false,
        };
        if q.project_id == project_id && q.id != keep_id && open_or_approved {
            quotations.set(i, Quotation { status: QuotationStatus::Superseded, ..q });
        }
        i = i + 1;
    }
}

/// The quotations after the client's decision on the quotation at index `t`:
/// it becomes approved or rejected, and on approval every other open or
/// approved quotation of its project is superseded.
pub open spec fn decided_quotations(quotations: Seq<Quotation>, t: int, approve: bool) -> Seq<Quotation> {
    let target = quotations[t];
    Seq::new(
        quotations.len(),
        |i: int|
            if i == t {
                Quotation {
                    status: if approve {
                        QuotationStatus::Approved
                    } else {
                        QuotationStatus::Rejected
                    },
                    ..target
                }
            } else if approve {
                superseded_by(quotations[i], target.project_id, target.id)
            } else {
                quotations[i]
            },
    )
}

/// The client's decision on a quotation. `quotations` holds the quotation
/// asked for and the other quotations of its project; `project` is its
/// project (`None`: missing). `NotFound` when the quotation or project is
/// missing or the project belongs to another client; `AlreadyDecided` when
/// the quotation is no longer a draft or sent; otherwise the quotations as
/// `decided_quotations` gives them.
pub fn decide_quotation(
    quotations: &Vec<Quotation>,
    quotation_id: u128,
    project: Option<Project>,
    client_id: u128,
    approve: bool,
) -> (r: Result<Vec<Quotation>, ApiError>)
    ensures
        match position_of(quotations@, quotation_id) {
            None => r == Err::<Vec<Quotation>, ApiError>(ApiError::NotFound),
            Some(t) => match project {
                None => r == Err::<Vec<Quotation>, ApiError>(ApiError::NotFound),
                Some(p) => if p.client_id != client_id {
                    r == Err::<Vec<Quotation>, ApiError>(ApiError::NotFound)
                } else if !undecided(quotations@[t].status) {
                    r == Err::<Vec<Quotation>, ApiError>(ApiError::BadRequest(BadRequest::AlreadyDecided))
                } else {
                    r matches Ok(v) && v@ == decided_quotations(quotations@, t, approve)
                },
            },
        },
{
    proof {
        lemma_position_of(quotations@, quotation_id);
    }
    let t = match index_of_id(quotations, quotation_id) {
        None => return Err(ApiError::NotFound),
        Some(t) => t,
    };
    let p = match project {
        None => return Err(ApiError::NotFound),
        Some(p) => p,
    };
    if p.client_id != client_id {
        return Err(ApiError::NotFound);
    }
    let target = quotations[t];
    match target.status {
        QuotationStatus::Draft | QuotationStatus::Sent => {},
        _ => return Err(ApiError::BadRequest(BadRequest::AlreadyDecided)),
    }
    let mut out = quotations.clone();
    let new_status = if approve {
        QuotationStatus::Approved
    } else {
        QuotationStatus::Rejected
    };
    out.set(t, Quotation { status: new_status, ..target });
    if approve {
        let ghost before = out@;
        supersede_other_quotations(&mut out, target.project_id, target.id);
        proof {
            assert(out@[t as int] == before[t as int]);
        }
    }
    proof {
        assert(out@ =~= decided_quotations(quotations@, t as int, approve));
    }
    Ok(out)
}

/// Law: approving a quotation closes every other version of its project:
/// afterwards no other quotation of the project (by id) is a draft, sent or
/// approved; each that was one is superseded, a rejected one stays rejected,
/// and quotations of other projects are unchanged.
pub proof fn lemma_approval_closes_other_versions(quotations: Seq<Quotation>, t: int)
    requires
        0 <= t < quotations.len(),
    ensures
        ({
            let after = decided_quotations(quotations, t, true);
            let target = quotations[t];
            &&& after.len() == quotations.len()
            &&& after[t].status == QuotationStatus::Approved
            &&& forall|i: int|
                0 <= i < after.len() && i != t && quotations[i].project_id == target.project_id
                    && quotations[i].id != target.id ==> {
                    &&& (#[trigger] after[i]).status != QuotationStatus::Draft
                    &&& after[i].status != QuotationStatus::Sent
                    &&& after[i].status != QuotationStatus::Approved
                    &&& (quotations[i].status == QuotationStatus::Rejected ==> after[i] == quotations[i])
                    &&& (quotations[i].status != QuotationStatus::Rejected ==> after[i] == Quotation {
                        status: QuotationStatus::Superseded,
                        ..quotations[i]
                    })
                }
            &&& forall|i: int|
                0 <= i < after.len() && i != t && quotations[i].project_id != target.project_id ==> #[trigger] after[i]
                    == quotations[i]
        }),
{
}

/// At most one quotation of the project is approved: any two approved
/// quotations of it are the same quotation.
pub open spec fn at_most_one_approved(quotations: Seq<Quotation>, project_id: u128) -> bool {
    forall|i: int, j: int|
        0 <= i < quotations.len() && 0 <= j < quotations.len() && (#[trigger] quotations[i]).project_id
            == project_id && (#[trigger] quotations[j]).project_id == project_id && quotations[i].status
            == QuotationStatus::Approved && quotations[j].status == QuotationStatus::Approved ==> i == j
}

/// Law: after the client approves a quotation, it is the only approved
/// quotation of its project.
pub proof fn lemma_approval_leaves_one_approved(quotations: Seq<Quotation>, t: int)
    requires
        0 <= t < quotations.len(),
    ensures
        ({
            let after = decided_quotations(quotations, t, true);
            forall|i: int|
                0 <= i < after.len() && (#[trigger] after[i]).project_id == quotations[t].project_id
                    && after[i].status == QuotationStatus::Approved ==> i == t || after[i].id == quotations[t].id
        }),
{
}

/// Law: a decision keeps the rule that a project has at most one approved
/// quotation, when ids are unique.
pub proof fn lemma_decision_keeps_one_approved(quotations: Seq<Quotation>, t: int, approve: bool, project_id: u128)
    requires
        0 <= t < quotations.len(),
        undecided(quotations[t].status),
        at_most_one_approved(quotations, project_id),
        forall|i: int, j: int|
            0 <= i < quotations.len() && 0 <= j < quotations.len() && #[trigger] quotations[i].id
                == #[trigger] quotations[j].id ==> i == j,
    ensures
        at_most_one_approved(decided_quotations(quotations, t, approve), project_id),
{
    let after = decided_quotations(quotations, t, approve);
    assert forall|i: int, j: int|
        0 <= i < after.len() && 0 <= j < after.len() && (#[trigger] after[i]).project_id == project_id
            && (#[trigger] after[j]).project_id == project_id && after[i].status == QuotationStatus::Approved
            && after[j].status == QuotationStatus::Approved implies i == j by {
        if approve && quotations[t].project_id == project_id {
            if i != t {
                assert(after[i].id == quotations[t].id);
                assert(quotations[i].id == quotations[t].id);
            }
            if j != t {
                assert(after[j].id == quotations[t].id);
                assert(quotations[j].id == quotations[t].id);
            }
        } else {
            assert(after[i].project_id == quotations[i].project_id);
            assert(after[j].project_id == quotations[j].project_id);
            if i != t && j != t {
                assert(quotations[i].status == QuotationStatus::Approved);
                assert(quotations[j].status == QuotationStatus::Approved);
            }
        }
    }
}

} // verus!
