//! Invoice arithmetic under a regional tax profile, and the rules for
//! raising milestone and progressive (running-account) bills.
use vstd::prelude::*;
use crate::authz::{holds_role, require_project_business_unit_role, RoleAssignment};
use crate::decimal::{
    decimal_difference, decimal_product, decimal_quotient, decimal_sum, diff_exact, diff_fits, lemma_units_diff,
    lemma_units_prod, lemma_units_sum, pow10, prod_exact, prod_fits, sum_exact, sum_fits, units, Dec, DecView,
};
use crate::error::{ApiError, BadRequest};
use crate::project::{spec_parse_billing_method, parse_billing_method, BillingMethod, Project};
use crate::lookup::{find_by_key, index_of_id, lemma_position_of, position_of, Keyed};
use crate::schedule::Role;
use crate::text::{blank, is_blank, str_is};

verus! {

/// The tax figures for one invoice's taxable base amount.
#[derive(Clone, Copy, Debug)]
pub struct TaxBreakdown {
    pub gst_amount: Dec,
    pub gst_tds_amount: Dec,
}

/// A regional tax rule set.
pub trait RegionProfile {
    /// The taxes on `base` can be computed (no step overflows).
    spec fn tax_computable(&self, base: DecView) -> bool;

    /// The (GST, GST TDS) figures on `base`.
    spec fn spec_tax(&self, base: DecView) -> (DecView, DecView);

    /// Whether the taxes on `base_amount` can be computed.
    fn can_compute_tax(&self, base_amount: &Dec) -> (r: bool)
        ensures
            r == self.tax_computable(base_amount@),
    ;

    /// Computes the tax figures on the taxable `base_amount`.
    fn compute_tax(&self, base_amount: &Dec) -> (t: TaxBreakdown)
        requires
            self.tax_computable(base_amount@),
        ensures
            (t.gst_amount@, t.gst_tds_amount@) == self.spec_tax(base_amount@),
    ;
}

/// India: GST works-contract SAC 9954 at 18% and GST TDS at 2%, both on the
/// taxable value.
#[derive(Clone, Copy, Debug)]
pub struct IndiaGstProfile;

/// 18%.
pub open spec fn gst_rate() -> DecView {
    DecView { mantissa: 18, scale: 2 }
}

/// 2%.
pub open spec fn gst_tds_rate() -> DecView {
    DecView { mantissa: 2, scale: 2 }
}

impl RegionProfile for IndiaGstProfile {
    open spec fn tax_computable(&self, base: DecView) -> bool {
        decimal_product(base, gst_rate()) is Some && decimal_product(base, gst_tds_rate()) is Some
    }

    open spec fn spec_tax(&self, base: DecView) -> (DecView, DecView) {
        (decimal_product(base, gst_rate()).unwrap(), decimal_product(base, gst_tds_rate()).unwrap())
    }

    fn can_compute_tax(&self, base_amount: &Dec) -> (r: bool) {
        let gst_rate = Dec::new(18, 2).unwrap();
        let tds_rate = Dec::new(2, 2).unwrap();
        base_amount.rounded_mul(&gst_rate).is_some() && base_amount.rounded_mul(&tds_rate).is_some()
    }

    /// When a product needs no rounding, it is the exact product.
    fn compute_tax(&self, base_amount: &Dec) -> (t: TaxBreakdown)
        ensures
            prod_fits(base_amount@, gst_rate()) ==> t.gst_amount@ == prod_exact(base_amount@, gst_rate()),
            prod_fits(base_amount@, gst_tds_rate()) ==> t.gst_tds_amount@ == prod_exact(base_amount@, gst_tds_rate()),
    {
        let gst_rate = Dec::new(18, 2).unwrap();
        let tds_rate = Dec::new(2, 2).unwrap();
        let gst_amount = base_amount.rounded_mul(&gst_rate).unwrap();
        let gst_tds_amount = base_amount.rounded_mul(&tds_rate).unwrap();
        TaxBreakdown { gst_amount, gst_tds_amount }
    }
}

/// The tax profile for a tenant's region. Only India exists, so every
/// region resolves to it.
pub fn profile_for(region_profile: &str) -> (r: IndiaGstProfile)
    ensures
        r == IndiaGstProfile,
{
    IndiaGstProfile
}

/// The computed figures of an invoice.
#[derive(Clone, Copy, Debug)]
pub struct InvoiceCalculation {
    pub gst_amount: Dec,
    pub gst_tds_amount: Dec,
    pub retention_amount: Dec,
    pub gross_amount: Dec,
    pub net_payable: Dec,
}

/// The abstract figures of an invoice.
pub struct InvoiceFigures {
    pub gst_amount: DecView,
    pub gst_tds_amount: DecView,
    pub retention_amount: DecView,
    pub gross_amount: DecView,
    pub net_payable: DecView,
}

impl InvoiceCalculation {
    /// The figures as values.
    pub open spec fn figures(self) -> InvoiceFigures {
        InvoiceFigures {
            gst_amount: self.gst_amount@,
            gst_tds_amount: self.gst_tds_amount@,
            retention_amount: self.retention_amount@,
            gross_amount: self.gross_amount@,
            net_payable: self.net_payable@,
        }
    }
}

/// 100.
pub open spec fn hundred() -> DecView {
    DecView { mantissa: 100, scale: 0 }
}

/// The invoice figures for `base` and `retention_percent`, each step as
/// `rust_decimal` computes it, or none when a step overflows:
/// - the taxes as the profile computes them,
/// - retention = base * (retention_percent / 100),
/// - gross = base + GST,
/// - net payable = gross - GST TDS - retention.
pub open spec fn invoice_figures<P: RegionProfile>(profile: P, base: DecView, retention_percent: DecView) -> Option<
    InvoiceFigures,
> {
    match decimal_quotient(retention_percent, hundred()) {
        None => None,
        Some(fraction) => figures_from_fraction(profile, base, fraction),
    }
}

/// The invoice figures for `base` once the retention fraction
/// (retention_percent / 100) is known; see `invoice_figures`.
pub open spec fn figures_from_fraction<P: RegionProfile>(profile: P, base: DecView, fraction: DecView) -> Option<
    InvoiceFigures,
> {
    if !profile.tax_computable(base) {
        None
    } else {
        let (gst, tds) = profile.spec_tax(base);
        match (decimal_product(base, fraction), decimal_sum(base, gst)) {
            (Some(retention), Some(gross)) => match decimal_difference(gross, tds) {
                Some(after_tds) => match decimal_difference(after_tds, retention) {
                    Some(net) => Some(
                        InvoiceFigures {
                            gst_amount: gst,
                            gst_tds_amount: tds,
                            retention_amount: retention,
                            gross_amount: gross,
                            net_payable: net,
                        },
                    ),
                    None => None,
                },
                None => None,
            },
            _ => None,
        }
    }
}

/// Where a step of the figures needs no rounding, it is exact: gross is
/// base + GST, and net payable is gross - GST TDS - retention.
pub open spec fn exact_where_lossless(c: InvoiceFigures, base: DecView) -> bool {
    &&& sum_fits(base, c.gst_amount) ==> c.gross_amount == sum_exact(base, c.gst_amount)
    &&& diff_fits(c.gross_amount, c.gst_tds_amount) && diff_fits(
        diff_exact(c.gross_amount, c.gst_tds_amount),
        c.retention_amount,
    ) ==> c.net_payable == diff_exact(diff_exact(c.gross_amount, c.gst_tds_amount), c.retention_amount)
}

/// Computes an invoice's figures, or `None` when some step overflows.
pub fn checked_calculate_invoice<P: RegionProfile>(profile: &P, base_amount: &Dec, retention_percent: &Dec) -> (r: Option<
    InvoiceCalculation,
>)
    ensures
        match r {
            Some(c) => invoice_figures(*profile, base_amount@, retention_percent@) == Some(c.figures())
                && exact_where_lossless(c.figures(), base_amount@),
            None => invoice_figures(*profile, base_amount@, retention_percent@) is None,
        },
{
    let hundred = Dec::from_int(100);
    match retention_percent.checked_div(&hundred) {
        Some(fraction) => calculate_invoice_with_fraction(profile, base_amount, &fraction),
        None => None,
    }
}

/// Computes an invoice's figures from the retention fraction (retention
/// percent / 100): the taxes as the profile computes them, retention =
/// base * fraction, gross = base + GST, net payable = gross - GST TDS -
/// retention, each as `rust_decimal` computes it; `None` when a step
/// overflows.
pub fn calculate_invoice_with_fraction<P: RegionProfile>(profile: &P, base_amount: &Dec, fraction: &Dec) -> (r: Option<
    InvoiceCalculation,
>)
    ensures
        match r {
            Some(c) => figures_from_fraction(*profile, base_amount@, fraction@) == Some(c.figures())
                && exact_where_lossless(c.figures(), base_amount@),
            None => figures_from_fraction(*profile, base_amount@, fraction@) is None,
        },
{
    if !profile.can_compute_tax(base_amount) {
        return None;
    }
    let tax = profile.compute_tax(base_amount);
    let retention_amount = base_amount.rounded_mul(fraction);
    let gross_amount = base_amount.rounded_add(&tax.gst_amount);
    let (retention_amount, gross_amount) = match (retention_amount, gross_amount) {
        (Some(r), Some(g)) => (r, g),
        _ => return None,
    };
    let after_tds = match gross_amount.rounded_sub(&tax.gst_tds_amount) {
        Some(x) => x,
        None => return None,
    };
    let net_payable = match after_tds.rounded_sub(&retention_amount) {
        Some(x) => x,
        None => return None,
    };
    Some(
        InvoiceCalculation {
            gst_amount: tax.gst_amount,
            gst_tds_amount: tax.gst_tds_amount,
            retention_amount,
            gross_amount,
            net_payable,
        },
    )
}


/// Computes an invoice's figures under `profile`:
/// - retention = base * (retention_percent / 100),
/// - gross = base + GST (the tax-inclusive invoice value),
/// - net payable = gross - GST TDS - retention,
/// each as `rust_decimal` computes it; where no rounding is needed the
/// relations hold exactly, by value. No step may overflow.
pub fn calculate_invoice<P: RegionProfile>(profile: &P, base_amount: &Dec, retention_percent: &Dec) -> (r: InvoiceCalculation)
    requires
        invoice_figures(*profile, base_amount@, retention_percent@) is Some,
    ensures
        invoice_figures(*profile, base_amount@, retention_percent@) == Some(r.figures()),
        sum_fits(base_amount@, r.gst_amount@) ==> units(r.gross_amount@) == units(base_amount@) + units(
            r.gst_amount@,
        ),
        diff_fits(r.gross_amount@, r.gst_tds_amount@) && diff_fits(
            diff_exact(r.gross_amount@, r.gst_tds_amount@),
            r.retention_amount@,
        ) ==> units(r.net_payable@) == units(r.gross_amount@) - units(r.gst_tds_amount@) - units(
            r.retention_amount@,
        ),
{
    let c = checked_calculate_invoice(profile, base_amount, retention_percent).unwrap();
    base_amount.valid();
    c.gst_amount.valid();
    c.gst_tds_amount.valid();
    c.retention_amount.valid();
    c.gross_amount.valid();
    proof {
        let f = c.figures();
        if sum_fits(base_amount@, f.gst_amount) {
            lemma_units_sum(base_amount@, f.gst_amount);
        }
        if diff_fits(f.gross_amount, f.gst_tds_amount) {
            let after_tds = diff_exact(f.gross_amount, f.gst_tds_amount);
            lemma_units_diff(f.gross_amount, f.gst_tds_amount);
            lemma_after_tds_wf(f.gross_amount, f.gst_tds_amount);
            if diff_fits(after_tds, f.retention_amount) {
                lemma_units_diff(after_tds, f.retention_amount);
            }
        }
    }
    c
}

proof fn lemma_after_tds_wf(a: DecView, b: DecView)
    requires
        a.wf(),
        b.wf(),
        diff_fits(a, b),
    ensures
        diff_exact(a, b).wf(),
{
}

/// Law: under the India profile GST is 18% and GST TDS is 2% of the base,
/// by value, wherever the product needs no rounding (the figures
/// `compute_tax` returns are then these products).
pub proof fn lemma_india_rates(base: DecView)
    requires
        base.wf(),
        prod_fits(base, gst_rate()),
        prod_fits(base, gst_tds_rate()),
    ensures
        units(prod_exact(base, gst_rate())) * 100 == units(base) * 18,
        units(prod_exact(base, gst_tds_rate())) * 100 == units(base) * 2,
{
    lemma_units_prod(base, gst_rate());
    lemma_units_prod(base, gst_tds_rate());
    reveal_with_fuel(pow10, 3);
    crate::decimal::lemma_pow10_add(26, 2);
    crate::decimal::lemma_pow10_pos(26);
    let p26 = pow10(26);
    assert(pow10(2) == 100);
    assert(pow10(28) == p26 * 100);
    assert(units(gst_rate()) == 18 * p26);
    assert(units(gst_tds_rate()) == 2 * p26);
    let g = units(prod_exact(base, gst_rate()));
    let t = units(prod_exact(base, gst_tds_rate()));
    let b = units(base);
    assert(g * 100 == b * 18) by (nonlinear_arith)
        requires
            g * (p26 * 100) == b * (18 * p26),
            p26 >= 1,
    ;
    assert(t * 100 == b * 2) by (nonlinear_arith)
        requires
            t * (p26 * 100) == b * (2 * p26),
            p26 >= 1,
    ;
}


/// Where a milestone stands.
#[derive(Clone, Copy, Debug, PartialEq, Eq, Structural)]
pub enum MilestoneStatus {
    Pending,
    Completed,
}

impl MilestoneStatus {
    /// Reads a stored status: `"completed"` is completed, anything else is
    /// still pending.
    pub fn parse(s: &str) -> (r: MilestoneStatus)
        ensures
            r == (if s@ == "completed"@ {
                MilestoneStatus::Completed
            } else {
                MilestoneStatus::Pending
            }),
    {
        if str_is(s, "completed") {
            MilestoneStatus::Completed
        } else {
            MilestoneStatus::Pending
        }
    }
}

/// The fields of a milestone that billing reads.
#[derive(Clone, Copy, Debug, PartialEq, Eq, Structural)]
pub struct Milestone {
    pub id: u128,
    pub project_id: u128,
    pub status: MilestoneStatus,
}

impl Keyed for Milestone {
    open spec fn key(&self) -> u128 {
        self.id
    }

    fn id_of(&self) -> (r: u128) {
        self.id
    }
}

/// Where an invoice stands.
#[derive(Clone, Copy, Debug, PartialEq, Eq, Structural)]
pub enum InvoiceStatus {
    Raised,
    Paid,
}

/// The fields of a raised invoice that billing reads.
#[derive(Clone, Copy, Debug)]
pub struct Invoice {
    pub id: u128,
    pub project_id: u128,
    pub milestone_id: Option<u128>,
    /// The stored billing method, as `parse_billing_method` reads it.
    pub billing_method: Option<BillingMethod>,
    pub certified_value_to_date: Option<Dec>,
    pub status: InvoiceStatus,
}

impl Keyed for Invoice {
    open spec fn key(&self) -> u128 {
        self.id
    }

    fn id_of(&self) -> (r: u128) {
        self.id
    }
}

/// A request to raise an invoice.
pub struct CreateInvoiceRequest {
    /// `"milestone"` or `"progressive"`.
    pub billing_method: String,
    /// Required for milestone billing.
    pub milestone_id: Option<u128>,
    /// Required for milestone billing: the taxable amount of this bill.
    pub base_amount: Option<Dec>,
    /// Required for progressive billing: the cumulative certified value as
    /// of this bill.
    pub certified_value_to_date: Option<Dec>,
    pub retention_percent: Dec,
}

/// Some invoice was raised against milestone `milestone_id`.
pub open spec fn milestone_invoiced(invoices: Seq<Invoice>, milestone_id: u128) -> bool {
    exists|i: int| 0 <= i < invoices.len() && (#[trigger] invoices[i]).milestone_id == Some(milestone_id)
}

/// The invoice counts as a prior progressive bill of project `project_id`
/// with a certified value.
pub open spec fn prior_progressive(inv: Invoice, project_id: u128) -> bool {
    inv.project_id == project_id && inv.billing_method == Some(BillingMethod::Progressive)
        && inv.certified_value_to_date is Some
}

/// The greatest certified value among the prior progressive bills of the
/// project, the latest of equal ones, if there is any such bill.
pub open spec fn latest_max_certified(invoices: Seq<Invoice>, project_id: u128) -> Option<DecView>
    decreases invoices.len(),
{
    if invoices.len() == 0 {
        None
    } else {
        let prev = latest_max_certified(invoices.drop_last(), project_id);
        let inv = invoices.last();
        if prior_progressive(inv, project_id) {
            let x = inv.certified_value_to_date.unwrap()@;
            match prev {
                Some(p) => if units(p) <= units(x) {
                    Some(x)
                } else {
                    Some(p)
                },
                None => Some(x),
            }
        } else {
            prev
        }
    }
}

/// The cumulative value already billed on the project: the greatest prior
/// certified value, or zero.
pub open spec fn prior_certified(invoices: Seq<Invoice>, project_id: u128) -> DecView {
    match latest_max_certified(invoices, project_id) {
        Some(x) => x,
        None => DecView { mantissa: 0, scale: 0 },
    }
}

/// The terms of an invoice to be raised: what it bills against and its
/// taxable base.
pub struct InvoiceTerms {
    pub milestone_id: Option<u128>,
    pub billing_method: BillingMethod,
    pub certified_value_to_date: Option<DecView>,
    pub base_amount: DecView,
}

/// 0 <= retention_percent <= 100, by value.
pub open spec fn retention_in_range(r: DecView) -> bool {
    0 <= units(r) <= units(hundred())
}

fn bad(reason: BadRequest) -> (r: ApiError)
    ensures
        r == ApiError::BadRequest(reason),
{
    ApiError::BadRequest(reason)
}

/// The terms of the invoice a request asks for, or why it is refused, in
/// the order the checks are made: the retention range, the caller's finance
/// role in the project's business unit, then the billing method's own rules.
/// A milestone bill needs a milestone id and a positive base amount, and the
/// milestone must exist, belong to the project, be completed and not be
/// invoiced yet. A progressive bill needs a certified value to date on a
/// progressive project that exceeds the prior cumulative value; it bills the
/// difference, as `rust_decimal` computes it (`decimal_difference`).
pub open spec fn invoice_terms(
    req: CreateInvoiceRequest,
    assignments: Seq<RoleAssignment>,
    user_id: u128,
    project: Option<Project>,
    milestones: Seq<Milestone>,
    invoices: Seq<Invoice>,
) -> Result<InvoiceTerms, ApiError> {
    if !retention_in_range(req.retention_percent@) {
        Err(ApiError::BadRequest(BadRequest::RetentionOutOfRange))
    } else {
        match project {
            None => Err(ApiError::NotFound),
            Some(p) => if !holds_role(assignments, user_id, p.business_unit_id, Some(Role::Finance)) {
                Err(ApiError::Forbidden)
            } else {
                match spec_parse_billing_method(req.billing_method@) {
                    Some(BillingMethod::Milestone) => match req.milestone_id {
                        None => Err(ApiError::BadRequest(BadRequest::MilestoneIdRequired)),
                        Some(mid) => match req.base_amount {
                            None => Err(ApiError::BadRequest(BadRequest::BaseAmountRequired)),
                            Some(base) => if units(base@) <= 0 {
                                Err(ApiError::BadRequest(BadRequest::BaseAmountMustBePositive))
                            } else {
                                match find_by_key(milestones, mid) {
                                    None => Err(ApiError::BadRequest(BadRequest::MilestoneNotFound)),
                                    Some(m) => if m.project_id != p.id {
                                        Err(ApiError::BadRequest(BadRequest::MilestoneOfOtherProject))
                                    } else if m.status != MilestoneStatus::Completed {
                                        Err(ApiError::BadRequest(BadRequest::MilestoneNotCompleted))
                                    } else if milestone_invoiced(invoices, mid) {
                                        Err(ApiError::BadRequest(BadRequest::MilestoneAlreadyInvoiced))
                                    } else {
                                        Ok(
                                            InvoiceTerms {
                                                milestone_id: Some(mid),
                                                billing_method: BillingMethod::Milestone,
                                                certified_value_to_date: None,
                                                base_amount: base@,
                                            },
                                        )
                                    },
                                }
                            },
                        },
                    },
                    Some(BillingMethod::Progressive) => match req.certified_value_to_date {
                        None => Err(ApiError::BadRequest(BadRequest::CertifiedValueRequired)),
                        Some(c) => if p.billing_method != BillingMethod::Progressive {
                            Err(ApiError::BadRequest(BadRequest::ProjectNotProgressive))
                        } else {
                            let prior = prior_certified(invoices, p.id);
                            if units(c@) <= units(prior) {
                                Err(ApiError::BadRequest(BadRequest::CertifiedValueNotIncreasing))
                            } else {
                                match decimal_difference(c@, prior) {
                                    None => Err(ApiError::BadRequest(BadRequest::AmountOutOfRange)),
                                    Some(base) => Ok(
                                        InvoiceTerms {
                                            milestone_id: None,
                                            billing_method: BillingMethod::Progressive,
                                            certified_value_to_date: Some(c@),
                                            base_amount: base,
                                        },
                                    ),
                                }
                            }
                        },
                    },
                    None => Err(ApiError::BadRequest(BadRequest::InvalidBillingMethod)),
                }
            },
        }
    }
}

/// Everything an invoice to be raised holds.
#[derive(Clone, Copy, Debug)]
pub struct InvoicePlan {
    pub milestone_id: Option<u128>,
    pub billing_method: BillingMethod,
    pub certified_value_to_date: Option<Dec>,
    pub base_amount: Dec,
    pub retention_percent: Dec,
    pub calculation: InvoiceCalculation,
    /// A new invoice is raised (not yet paid).
    pub status: InvoiceStatus,
}

/// The plan matches the terms and carries the figures the tax profile gives
/// for its base and retention.
pub open spec fn plan_matches(plan: InvoicePlan, terms: InvoiceTerms, retention_percent: DecView) -> bool {
    &&& plan.milestone_id == terms.milestone_id
    &&& plan.billing_method == terms.billing_method
    &&& match plan.certified_value_to_date {
        Some(c) => terms.certified_value_to_date == Some(c@),
        None => terms.certified_value_to_date is None,
    }
    &&& plan.base_amount@ == terms.base_amount
    &&& plan.retention_percent@ == retention_percent
    &&& plan.status == InvoiceStatus::Raised
    &&& invoice_figures(IndiaGstProfile, terms.base_amount, retention_percent) == Some(plan.calculation.figures())
}

/// The greatest certified value among the project's prior progressive
/// bills (the latest of equal ones), if any.
fn max_prior_certified(invoices: &Vec<Invoice>, project_id: u128) -> (r: Option<Dec>)
    ensures
        match r {
            Some(x) => latest_max_certified(invoices@, project_id) == Some(x@),
            None => latest_max_certified(invoices@, project_id) is None,
        },
{
    let mut best: Option<Dec> = None;
    let mut i: usize = 0;
    while i < invoices.len()
        invariant
            i <= invoices.len(),
            match best {
                Some(x) => latest_max_certified(invoices@.take(i as int), project_id) == Some(x@),
                None => latest_max_certified(invoices@.take(i as int), project_id) is None,
            },
        decreases invoices.len() - i,
    {
        proof {
            assert(invoices@.take(i + 1).drop_last() =~= invoices@.take(i as int));
        }
        let inv = invoices[i];
        let counts = inv.project_id == project_id && match inv.billing_method {
            Some(BillingMethod::Progressive) => true,
            _ => false,
        };
        if counts {
            match inv.certified_value_to_date {
                Some(x) => {
                    best = match best {
                        Some(p) => if p.le(&x) {
                            Some(x)
                        } else {
                            Some(p)
                        },
                        None => Some(x),
                    };
                },
                None => {},
            }
        }
        i = i + 1;
    }
    proof {
        assert(invoices@.take(invoices@.len() as int) =~= invoices@);
    }
    best
}

/// Whether some invoice was raised against the milestone.
fn any_invoice_for_milestone(invoices: &Vec<Invoice>, milestone_id: u128) -> (r: bool)
    ensures
        r == milestone_invoiced(invoices@, milestone_id),
{
    let mut i: usize = 0;
    while i < invoices.len()
        invariant
            i <= invoices.len(),
            forall|j: int| 0 <= j < i ==> (#[trigger] invoices@[j]).milestone_id != Some(milestone_id),
        decreases invoices.len() - i,
    {
        if invoices[i].milestone_id == Some(milestone_id) {
            return true;
        }
        i = i + 1;
    }
    false
}

/// Decides the terms of an invoice; see `invoice_terms`.
fn decide_invoice_terms(
    req: &CreateInvoiceRequest,
    assignments: &Vec<RoleAssignment>,
    user_id: u128,
    project: Option<Project>,
    milestones: &Vec<Milestone>,
    invoices: &Vec<Invoice>,
) -> (r: Result<(Option<u128>, BillingMethod, Option<Dec>, Dec), ApiError>)
    ensures
        match r {
            Ok((mid, method, certified, base)) => invoice_terms(*req, assignments@, user_id, project, milestones@, invoices@)
                == Ok::<InvoiceTerms, ApiError>(
                InvoiceTerms {
                    milestone_id: mid,
                    billing_method: method,
                    certified_value_to_date: match certified {
                        Some(c) => Some(c@),
                        None => None,
                    },
                    base_amount: base@,
                },
            ),
            Err(e) => invoice_terms(*req, assignments@, user_id, project, milestones@, invoices@) == Err::<
                InvoiceTerms,
                ApiError,
            >(e),
        },
        r is Ok && r->Ok_0.1 == BillingMethod::Progressive && r->Ok_0.2 is Some && diff_fits(
            r->Ok_0.2.unwrap()@,
            prior_certified(invoices@, project.unwrap().id),
        ) ==> r->Ok_0.3@ == diff_exact(r->Ok_0.2.unwrap()@, prior_certified(invoices@, project.unwrap().id)),
{
    let zero = Dec::zero();
    let hundred = Dec::from_int(100);
    if req.retention_percent.lt(&zero) || hundred.lt(&req.retention_percent) {
        return Err(bad(BadRequest::RetentionOutOfRange));
    }
    let p = match project {
        None => return Err(ApiError::NotFound),
        Some(p) => p,
    };
    if require_business_unit_role_bool(assignments, user_id, p.business_unit_id) == false {
        return Err(ApiError::Forbidden);
    }
    match parse_billing_method(req.billing_method.as_str()) {
        Some(BillingMethod::Milestone) => {
            let mid = match req.milestone_id {
                None => return Err(bad(BadRequest::MilestoneIdRequired)),
                Some(m) => m,
            };
            let base = match req.base_amount {
                None => return Err(bad(BadRequest::BaseAmountRequired)),
                Some(b) => b,
            };
            if base.le(&zero) {
                return Err(bad(BadRequest::BaseAmountMustBePositive));
            }
            proof {
                lemma_position_of(milestones@, mid);
            }
            let m = match index_of_id(milestones, mid) {
                None => return Err(bad(BadRequest::MilestoneNotFound)),
                Some(i) => milestones[i],
            };
            if m.project_id != p.id {
                return Err(bad(BadRequest::MilestoneOfOtherProject));
            }
            if m.status != MilestoneStatus::Completed {
                return Err(bad(BadRequest::MilestoneNotCompleted));
            }
            if any_invoice_for_milestone(invoices, mid) {
                return Err(bad(BadRequest::MilestoneAlreadyInvoiced));
            }
            Ok((Some(mid), BillingMethod::Milestone, None, base))
        },
        Some(BillingMethod::Progressive) => {
            let certified = match req.certified_value_to_date {
                None => return Err(bad(BadRequest::CertifiedValueRequired)),
                Some(c) => c,
            };
            if p.billing_method != BillingMethod::Progressive {
                return Err(bad(BadRequest::ProjectNotProgressive));
            }
            let prior = match max_prior_certified(invoices, p.id) {
                Some(x) => x,
                None => zero,
            };
            if certified.le(&prior) {
                return Err(bad(BadRequest::CertifiedValueNotIncreasing));
            }
            match certified.rounded_sub(&prior) {
                None => Err(bad(BadRequest::AmountOutOfRange)),
                Some(base) => Ok((None, BillingMethod::Progressive, Some(certified), base)),
            }
        },
        None => Err(bad(BadRequest::InvalidBillingMethod)),
    }
}

fn require_business_unit_role_bool(assignments: &Vec<RoleAssignment>, user_id: u128, business_unit_id: u128) -> (r:
    bool)
    ensures
        r == holds_role(assignments@, user_id, business_unit_id, Some(Role::Finance)),
{
    crate::authz::require_business_unit_role(assignments, user_id, business_unit_id, Some(Role::Finance)).is_ok()
}

/// Plans an invoice on a project: checks the request against the caller's
/// roles, the project, its milestones and the tenant's invoices (see
/// `invoice_terms`), then computes the figures under the tenant's regional
/// tax profile. `project` is the project the invoice is for, `None` when it
/// does not exist; `tenant_region_profile` is the caller's tenant's region,
/// `None` when the tenant record is missing. Figures that cannot be computed
/// without loss are refused as out of range.
pub fn create_invoice(
    req: &CreateInvoiceRequest,
    assignments: &Vec<RoleAssignment>,
    user_id: u128,
    project: Option<Project>,
    milestones: &Vec<Milestone>,
    invoices: &Vec<Invoice>,
    tenant_region_profile: Option<&str>,
) -> (r: Result<InvoicePlan, ApiError>)
    ensures
        match invoice_terms(*req, assignments@, user_id, project, milestones@, invoices@) {
            Err(e) => r == Err::<InvoicePlan, ApiError>(e),
            Ok(terms) => if tenant_region_profile is None {
                r == Err::<InvoicePlan, ApiError>(ApiError::Internal)
            } else if invoice_figures(IndiaGstProfile, terms.base_amount, req.retention_percent@) is None {
                r == Err::<InvoicePlan, ApiError>(ApiError::BadRequest(BadRequest::AmountOutOfRange))
            } else {
                r matches Ok(plan) && plan_matches(plan, terms, req.retention_percent@)
            },
        },
        r is Ok && r->Ok_0.billing_method == BillingMethod::Progressive ==> {
            let plan = r->Ok_0;
            let prior = prior_certified(invoices@, project.unwrap().id);
            &&& plan.certified_value_to_date is Some
            &&& units(plan.certified_value_to_date.unwrap()@) > units(prior)
            &&& diff_fits(plan.certified_value_to_date.unwrap()@, prior) ==> plan.base_amount@ == diff_exact(
                plan.certified_value_to_date.unwrap()@,
                prior,
            )
        },
{
    let (milestone_id, billing_method, certified_value_to_date, base_amount) = match decide_invoice_terms(
        req,
        assignments,
        user_id,
        project,
        milestones,
        invoices,
    ) {
        Ok(t) => t,
        Err(e) => return Err(e),
    };
    let region = match tenant_region_profile {
        None => return Err(ApiError::Internal),
        Some(region) => region,
    };
    let profile = profile_for(region);
    match checked_calculate_invoice(&profile, &base_amount, &req.retention_percent) {
        None => Err(bad(BadRequest::AmountOutOfRange)),
        Some(calculation) => Ok(
            InvoicePlan {
                milestone_id,
                billing_method,
                certified_value_to_date,
                base_amount,
                retention_percent: req.retention_percent,
                calculation,
                status: InvoiceStatus::Raised,
            },
        ),
    }
}


/// Every certified value recorded on the invoices is a valid decimal.
pub open spec fn certified_values_wf(invoices: Seq<Invoice>) -> bool {
    forall|i: int|
        0 <= i < invoices.len() ==> ((#[trigger] invoices[i]).certified_value_to_date matches Some(c) ==> c@.wf())
}

proof fn lemma_prior_certified_wf(invoices: Seq<Invoice>, project_id: u128)
    requires
        certified_values_wf(invoices),
    ensures
        prior_certified(invoices, project_id).wf(),
        latest_max_certified(invoices, project_id) matches Some(x) ==> x.wf(),
    decreases invoices.len(),
{
    if invoices.len() > 0 {
        let prev = invoices.drop_last();
        assert forall|i: int| 0 <= i < prev.len() implies ((#[trigger] prev[i]).certified_value_to_date matches Some(
            c,
        ) ==> c@.wf()) by {
            assert(prev[i] == invoices[i]);
        }
        lemma_prior_certified_wf(prev, project_id);
        assert(invoices.last() == invoices[invoices.len() - 1]);
    }
}

/// Law: a progressive bill's taxable base, where the difference is computed
/// without loss (see `create_invoice`), is the certified value to date less
/// the value already billed on the project, and it is positive.
pub proof fn lemma_progressive_base_is_increment(certified: DecView, prior: DecView, base: DecView)
    requires
        certified.wf(),
        prior.wf(),
        units(certified) > units(prior),
        diff_fits(certified, prior),
        base == diff_exact(certified, prior),
    ensures
        units(base) == units(certified) - units(prior),
        units(base) > 0,
{
    lemma_units_diff(certified, prior);
}

/// Law: once a progressive bill with a certified value above the prior
/// cumulative value is recorded, that value is the project's new prior
/// cumulative value, so the next bill is charged only for what lies beyond
/// it.
pub proof fn lemma_recorded_bill_becomes_prior(invoices: Seq<Invoice>, project_id: u128, bill: Invoice)
    requires
        prior_progressive(bill, project_id),
        units(bill.certified_value_to_date.unwrap()@) > units(prior_certified(invoices, project_id)),
    ensures
        prior_certified(invoices.push(bill), project_id) == bill.certified_value_to_date.unwrap()@,
{
    assert(invoices.push(bill).drop_last() =~= invoices);
}

/// Law: a milestone is invoiced at most once: once an invoice against a
/// milestone is recorded, no further milestone bill against it is accepted.
pub proof fn lemma_milestone_invoiced_once(
    req: CreateInvoiceRequest,
    assignments: Seq<RoleAssignment>,
    user_id: u128,
    project: Option<Project>,
    milestones: Seq<Milestone>,
    invoices: Seq<Invoice>,
    bill: Invoice,
)
    requires
        req.milestone_id is Some,
        bill.milestone_id == req.milestone_id,
    ensures
        invoice_terms(req, assignments, user_id, project, milestones, invoices.push(bill)) matches Ok(t)
            ==> t.billing_method == BillingMethod::Progressive,
{
    let all = invoices.push(bill);
    assert(all[all.len() - 1].milestone_id == Some(req.milestone_id.unwrap()));
    assert(milestone_invoiced(all, req.milestone_id.unwrap()));
}

/// A request to add a billing milestone to a project.
pub struct CreateMilestoneRequest {
    pub title: String,
}

/// Adds a milestone to a project: the title must not be blank, and the
/// caller must belong to the project's business unit (`NotFound` when the
/// project does not exist). The new milestone, with the given fresh id, is
/// pending.
pub fn create_milestone(
    req: &CreateMilestoneRequest,
    assignments: &Vec<RoleAssignment>,
    user_id: u128,
    project: Option<Project>,
    id: u128,
) -> (r: Result<Milestone, ApiError>)
    ensures
        r == (if blank(req.title@) {
            Err(ApiError::BadRequest(BadRequest::TitleRequired))
        } else {
            match project {
                None => Err(ApiError::NotFound),
                Some(p) => if holds_role(assignments@, user_id, p.business_unit_id, None) {
                    Ok(Milestone { id, project_id: p.id, status: MilestoneStatus::Pending })
                } else {
                    Err(ApiError::Forbidden)
                },
            }
        }),
{
    if is_blank(req.title.as_str()) {
        return Err(bad(BadRequest::TitleRequired));
    }
    let project_bu = match project {
        Some(p) => Some(p.business_unit_id),
        None => None,
    };
    match require_project_business_unit_role(assignments, user_id, project_bu, None) {
        Err(e) => Err(e),
        Ok(()) => {
            let p = project.unwrap();
            Ok(Milestone { id, project_id: p.id, status: MilestoneStatus::Pending })
        },
    }
}

/// Marks a milestone completed. `milestone` is the milestone asked for
/// (`None`: not found) and `project_business_unit` the business unit of its
/// project (`None`: the project is missing, also not found). The caller must
/// belong to that business unit; a completed milestone cannot be completed
/// again.
pub fn complete_milestone(
    milestone: Option<Milestone>,
    project_business_unit: Option<u128>,
    assignments: &Vec<RoleAssignment>,
    user_id: u128,
) -> (r: Result<Milestone, ApiError>)
    ensures
        r == (match milestone {
            None => Err(ApiError::NotFound),
            Some(m) => match project_business_unit {
                None => Err(ApiError::NotFound),
                Some(bu) => if !holds_role(assignments@, user_id, bu, None) {
                    Err(ApiError::Forbidden)
                } else if m.status == MilestoneStatus::Completed {
                    Err(ApiError::BadRequest(BadRequest::MilestoneAlreadyCompleted))
                } else {
                    Ok(Milestone { status: MilestoneStatus::Completed, ..m })
                },
            },
        }),
{
    let m = match milestone {
        None => return Err(ApiError::NotFound),
        Some(m) => m,
    };
    match require_project_business_unit_role(assignments, user_id, project_business_unit, None) {
        Err(e) => return Err(e),
        Ok(()) => {},
    }
    if m.status == MilestoneStatus::Completed {
        return Err(bad(BadRequest::MilestoneAlreadyCompleted));
    }
    Ok(Milestone { status: MilestoneStatus::Completed, ..m })
}

/// Marks an invoice paid. `invoice` is the invoice asked for (`None`: not
/// found) and `project_business_unit` the business unit of its project. The
/// caller must hold the finance role there; a paid invoice cannot be paid
/// again.
pub fn mark_invoice_paid(
    invoice: Option<Invoice>,
    project_business_unit: Option<u128>,
    assignments: &Vec<RoleAssignment>,
    user_id: u128,
) -> (r: Result<Invoice, ApiError>)
    ensures
        match invoice {
            None => r == Err::<Invoice, ApiError>(ApiError::NotFound),
            Some(inv) => match project_business_unit {
                None => r == Err::<Invoice, ApiError>(ApiError::NotFound),
                Some(bu) => if !holds_role(assignments@, user_id, bu, Some(Role::Finance)) {
                    r == Err::<Invoice, ApiError>(ApiError::Forbidden)
                } else if inv.status == InvoiceStatus::Paid {
                    r == Err::<Invoice, ApiError>(ApiError::BadRequest(BadRequest::InvoiceAlreadyPaid))
                } else {
                    r matches Ok(paid) && paid.status == InvoiceStatus::Paid && paid.id == inv.id
                        && paid.project_id == inv.project_id && paid.milestone_id == inv.milestone_id
                        && paid.billing_method == inv.billing_method && paid.certified_value_to_date
                        == inv.certified_value_to_date
                },
            },
        },
{
    let inv = match invoice {
        None => return Err(ApiError::NotFound),
        Some(inv) => inv,
    };
    match require_project_business_unit_role(assignments, user_id, project_business_unit, Some(Role::Finance)) {
        Err(e) => return Err(e),
        Ok(()) => {},
    }
    if inv.status == InvoiceStatus::Paid {
        return Err(bad(BadRequest::InvoiceAlreadyPaid));
    }
    Ok(Invoice { status: InvoiceStatus::Paid, ..inv })
}

} // verus!
