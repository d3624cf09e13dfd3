//! Errors the library reports; the HTTP layer turns them into responses.
use vstd::prelude::*;

verus! {

/// Why a request was refused as malformed or not applicable.
#[derive(Clone, Copy, Debug, PartialEq, Eq, Structural)]
pub enum BadRequest {
    TitleRequired,
    NameRequired,
    EmailRequired,
    TenantNameRequired,
    PasswordTooShort,
    EmailAlreadyRegistered,
    ProjectNameRequired,
    NotesRequired,
    DescriptionRequired,
    SubjectAndQuestionRequired,
    AnswerRequired,
    StagedTaskTitleRequired,
    AtLeastOneLineItem,
    AtLeastOneChange,
    AtLeastOneWorkstream,
    QuantityMustBePositive,
    UnitRateMustNotBeNegative,
    InvalidStatus,
    InvalidRole,
    InvalidBillingMethod,
    RetentionOutOfRange,
    MilestoneIdRequired,
    BaseAmountRequired,
    BaseAmountMustBePositive,
    MilestoneNotFound,
    MilestoneOfOtherProject,
    MilestoneNotCompleted,
    MilestoneAlreadyInvoiced,
    MilestoneAlreadyCompleted,
    CertifiedValueRequired,
    ProjectNotProgressive,
    CertifiedValueNotIncreasing,
    InvoiceAlreadyPaid,
    SelfDependency,
    DependencyNotFound,
    CrossProjectDependency,
    DependencyCycle,
    WorkstreamAlreadyEnabled,
    WorkstreamNotEnabled,
    StagedDependencyNotFound,
    StagedDependencyOfOtherProject,
    BaseQuotationNotFound,
    BaseQuotationOfOtherProject,
    BaseQuotationNotApproved,
    OriginalLineNotFound,
    OriginalLineOfOtherQuotation,
    AlreadyDecided,
    AlreadyClosed,
    AlreadyAnswered,
    LeadAlreadyConverted,
    PurchaseOrderNotOpen,
    VendorNotFound,
    UserNotFound,
    LastAdminDemotion,
    TenantTransitionNotAllowed,
    UnsupportedRegionProfile,
    /// An amount cannot be computed exactly in the decimal range.
    AmountOutOfRange,
}

/// The outcome of a refused operation.
#[derive(Clone, Copy, Debug, PartialEq, Eq, Structural)]
pub enum ApiError {
    BadRequest(BadRequest),
    NotFound,
    Unauthorized,
    Forbidden,
    /// A record the operation depends on is missing although the schema
    /// promises it (for instance the caller's own tenant).
    Internal,
}

} // verus!
