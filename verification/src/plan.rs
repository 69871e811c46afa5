//! The race plan: its arguments, the structural checks made before any
//! signer is authenticated, and which signers get authenticated.
use vstd::prelude::*;

use crate::race::{OrderSpec, SignerSpec, StepSpec, DEFAULT_SIGNER_LABEL};
use crate::text::str_equal;

verus! {

/// The arguments of one race run: signers, orders, steps and run options.
pub struct RaceArgs {
    pub signers: Vec<SignerSpec>,
    pub orders: Vec<OrderSpec>,
    pub steps: Vec<StepSpec>,
    /// Run the whole plan this many times.
    pub repeat: u32,
    /// Pre-warm the connection pool before timing starts.
    pub warmup: bool,
    /// Build, sign and derive order ids without submitting.
    pub dry_run: bool,
}

/// Why a race plan was refused before anything was sent.
#[derive(Clone, Debug)]
pub enum PlanError {
    /// No `--order` was given.
    NoOrders,
    /// No `--step` was given.
    NoSteps,
    /// Two orders share this label.
    DuplicateOrder(String),
    /// A step names this label, which no order has.
    UnknownOrderLabel(String),
    /// Two signers share this label.
    DuplicateSigner(String),
    /// Signers are defined but this order has no `@SIGNER`.
    MissingSigner(String),
    /// This order names a signer that is not defined.
    UnknownSigner { order: String, signer: String },
    /// This order has `@SIGNER` but no signer is defined.
    UnexpectedSigner(String),
}

pub enum PlanErrorModel {
    NoOrders,
    NoSteps,
    DuplicateOrder(Seq<char>),
    UnknownOrderLabel(Seq<char>),
    DuplicateSigner(Seq<char>),
    MissingSigner(Seq<char>),
    UnknownSigner { order: Seq<char>, signer: Seq<char> },
    UnexpectedSigner(Seq<char>),
}

impl View for PlanError {
    type V = PlanErrorModel;

    open spec fn view(&self) -> PlanErrorModel {
        match self {
            PlanError::NoOrders => PlanErrorModel::NoOrders,
            PlanError::NoSteps => PlanErrorModel::NoSteps,
            PlanError::DuplicateOrder(l) => PlanErrorModel::DuplicateOrder(l@),
            PlanError::UnknownOrderLabel(l) => PlanErrorModel::UnknownOrderLabel(l@),
            PlanError::DuplicateSigner(l) => PlanErrorModel::DuplicateSigner(l@),
            PlanError::MissingSigner(l) => PlanErrorModel::MissingSigner(l@),
            PlanError::UnknownSigner { order, signer } => PlanErrorModel::UnknownSigner {
                order: order@,
                signer: signer@,
            },
            PlanError::UnexpectedSigner(l) => PlanErrorModel::UnexpectedSigner(l@),
        }
    }
}

/// Whether an order before position `j` has the label of order `j`.
pub open spec fn order_label_seen_before(orders: Seq<OrderSpec>, j: int) -> bool {
    exists|i: int| 0 <= i < j && #[trigger] orders[i].label@ == orders[j].label@
}

/// The first order among the first `n` whose label an earlier order already has.
pub open spec fn first_duplicate_order(orders: Seq<OrderSpec>, n: int) -> Option<int>
    decreases n,
{
    if n <= 0 {
        None
    } else {
        match first_duplicate_order(orders, n - 1) {
            Some(j) => Some(j),
            None => if order_label_seen_before(orders, n - 1) {
                Some(n - 1)
            } else {
                None
            },
        }
    }
}

/// Whether a signer before position `j` has the label of signer `j`.
pub open spec fn signer_label_seen_before(signers: Seq<SignerSpec>, j: int) -> bool {
    exists|i: int| 0 <= i < j && #[trigger] signers[i].label@ == signers[j].label@
}

/// The first signer among the first `n` whose label an earlier signer already has.
pub open spec fn first_duplicate_signer(signers: Seq<SignerSpec>, n: int) -> Option<int>
    decreases n,
{
    if n <= 0 {
        None
    } else {
        match first_duplicate_signer(signers, n - 1) {
            Some(j) => Some(j),
            None => if signer_label_seen_before(signers, n - 1) {
                Some(n - 1)
            } else {
                None
            },
        }
    }
}

/// Whether some order has label `l`.
pub open spec fn has_order_label(orders: Seq<OrderSpec>, l: Seq<char>) -> bool {
    exists|i: int| 0 <= i < orders.len() && #[trigger] orders[i].label@ == l
}

/// Whether some signer has label `l`.
pub open spec fn has_signer_label(signers: Seq<SignerSpec>, l: Seq<char>) -> bool {
    exists|i: int| 0 <= i < signers.len() && #[trigger] signers[i].label@ == l
}

/// The order label a step refers to, if it refers to one.
pub open spec fn step_order_label(step: StepSpec) -> Option<Seq<char>> {
    match step {
        StepSpec::Submit(l) => Some(l@),
        StepSpec::Cancel(l) => Some(l@),
        StepSpec::Wait(_) => None,
    }
}

/// Whether step `k` refers to an order label that no order has.
pub open spec fn step_refers_to_unknown(steps: Seq<StepSpec>, orders: Seq<OrderSpec>, k: int) -> bool {
    match step_order_label(steps[k]) {
        Some(l) => !has_order_label(orders, l),
        None => false,
    }
}

/// The first step among the first `n` that refers to an unknown order label.
pub open spec fn first_unknown_step(steps: Seq<StepSpec>, orders: Seq<OrderSpec>, n: int) -> Option<
    int,
>
    decreases n,
{
    if n <= 0 {
        None
    } else {
        match first_unknown_step(steps, orders, n - 1) {
            Some(k) => Some(k),
            None => if step_refers_to_unknown(steps, orders, n - 1) {
                Some(n - 1)
            } else {
                None
            },
        }
    }
}

/// Whether an order's `@SIGNER` agrees with the signer mode: required and
/// defined when signers are given, absent otherwise.
pub open spec fn order_signer_ok(order: OrderSpec, multi: bool, signers: Seq<SignerSpec>) -> bool {
    match order.signer {
        None => !multi,
        Some(sig) => multi && has_signer_label(signers, sig@),
    }
}

/// The first order among the first `n` whose `@SIGNER` disagrees with the signer mode.
pub open spec fn first_bad_order_signer(
    orders: Seq<OrderSpec>,
    multi: bool,
    signers: Seq<SignerSpec>,
    n: int,
) -> Option<int>
    decreases n,
{
    if n <= 0 {
        None
    } else {
        match first_bad_order_signer(orders, multi, signers, n - 1) {
            Some(j) => Some(j),
            None => if !order_signer_ok(orders[n - 1], multi, signers) {
                Some(n - 1)
            } else {
                None
            },
        }
    }
}

/// The error an order whose `@SIGNER` disagrees with the signer mode gets.
pub open spec fn order_signer_error(order: OrderSpec, multi: bool) -> PlanErrorModel {
    match order.signer {
        None => PlanErrorModel::MissingSigner(order.label@),
        Some(sig) => if multi {
            PlanErrorModel::UnknownSigner { order: order.label@, signer: sig@ }
        } else {
            PlanErrorModel::UnexpectedSigner(order.label@)
        },
    }
}

/// Whether the plan uses named signers (`--signer` given at least once).
pub open spec fn is_multi_signer(args: RaceArgs) -> bool {
    args.signers@.len() > 0
}

/// The verdict on a plan: the signer mode when it is sound, else the first
/// problem, checked in this order: orders present, steps present, order
/// labels unique, step labels defined, signer labels unique, every order's
/// `@SIGNER` required and defined with signers, forbidden without.
pub open spec fn plan_outcome(args: RaceArgs) -> Result<bool, PlanErrorModel> {
    let orders = args.orders@;
    let steps = args.steps@;
    let signers = args.signers@;
    let multi = is_multi_signer(args);
    if orders.len() == 0 {
        Err(PlanErrorModel::NoOrders)
    } else if steps.len() == 0 {
        Err(PlanErrorModel::NoSteps)
    } else if let Some(j) = first_duplicate_order(orders, orders.len() as int) {
        Err(PlanErrorModel::DuplicateOrder(orders[j].label@))
    } else if let Some(k) = first_unknown_step(steps, orders, steps.len() as int) {
        Err(PlanErrorModel::UnknownOrderLabel(step_order_label(steps[k])->0))
    } else if let Some(j) = first_duplicate_signer(signers, signers.len() as int) {
        Err(PlanErrorModel::DuplicateSigner(signers[j].label@))
    } else if let Some(j) = first_bad_order_signer(orders, multi, signers, orders.len() as int) {
        Err(order_signer_error(orders[j], multi))
    } else {
        Ok(multi)
    }
}

pub proof fn lemma_first_duplicate_order_found(orders: Seq<OrderSpec>, n: int, m: int)
    requires
        m <= n,
        first_duplicate_order(orders, m) is Some,
    ensures
        first_duplicate_order(orders, n) == first_duplicate_order(orders, m),
    decreases n,
{
    if n > m {
        lemma_first_duplicate_order_found(orders, n - 1, m);
    }
}

pub proof fn lemma_first_duplicate_signer_found(signers: Seq<SignerSpec>, n: int, m: int)
    requires
        m <= n,
        first_duplicate_signer(signers, m) is Some,
    ensures
        first_duplicate_signer(signers, n) == first_duplicate_signer(signers, m),
    decreases n,
{
    if n > m {
        lemma_first_duplicate_signer_found(signers, n - 1, m);
    }
}

pub proof fn lemma_first_unknown_step_found(
    steps: Seq<StepSpec>,
    orders: Seq<OrderSpec>,
    n: int,
    m: int,
)
    requires
        m <= n,
        first_unknown_step(steps, orders, m) is Some,
    ensures
        first_unknown_step(steps, orders, n) == first_unknown_step(steps, orders, m),
    decreases n,
{
    if n > m {
        lemma_first_unknown_step_found(steps, orders, n - 1, m);
    }
}

pub proof fn lemma_first_bad_order_signer_found(
    orders: Seq<OrderSpec>,
    multi: bool,
    signers: Seq<SignerSpec>,
    n: int,
    m: int,
)
    requires
        m <= n,
        first_bad_order_signer(orders, multi, signers, m) is Some,
    ensures
        first_bad_order_signer(orders, multi, signers, n) == first_bad_order_signer(
            orders,
            multi,
            signers,
            m,
        ),
    decreases n,
{
    if n > m {
        lemma_first_bad_order_signer_found(orders, multi, signers, n - 1, m);
    }
}

/// Whether some order has this label.
fn find_order_label(orders: &Vec<OrderSpec>, l: &String) -> (r: bool)
    ensures
        r == has_order_label(orders@, l@),
{
    let mut i: usize = 0;
    while i < orders.len()
        invariant
            i <= orders@.len(),
            forall|j: int| 0 <= j < i ==> orders@[j].label@ != l@,
        decreases orders@.len() - i,
    {
        if str_equal(orders[i].label.as_str(), l.as_str()) {
            return true;
        }
        i = i + 1;
    }
    false
}

/// Whether some signer has this label.
fn find_signer_label(signers: &Vec<SignerSpec>, l: &String) -> (r: bool)
    ensures
        r == has_signer_label(signers@, l@),
{
    let mut i: usize = 0;
    while i < signers.len()
        invariant
            i <= signers@.len(),
            forall|j: int| 0 <= j < i ==> signers@[j].label@ != l@,
        decreases signers@.len() - i,
    {
        if str_equal(signers[i].label.as_str(), l.as_str()) {
            return true;
        }
        i = i + 1;
    }
    false
}

/// Whether an order before position `j` has the label of order `j`.
fn order_seen_before(orders: &Vec<OrderSpec>, j: usize) -> (r: bool)
    requires
        j < orders@.len(),
    ensures
        r == order_label_seen_before(orders@, j as int),
{
    let mut i: usize = 0;
    while i < j
        invariant
            i <= j < orders@.len(),
            forall|k: int| 0 <= k < i ==> orders@[k].label@ != orders@[j as int].label@,
        decreases j - i,
    {
        if str_equal(orders[i].label.as_str(), orders[j].label.as_str()) {
            return true;
        }
        i = i + 1;
    }
    false
}

/// Whether a signer before position `j` has the label of signer `j`.
fn signer_seen_before(signers: &Vec<SignerSpec>, j: usize) -> (r: bool)
    requires
        j < signers@.len(),
    ensures
        r == signer_label_seen_before(signers@, j as int),
{
    let mut i: usize = 0;
    while i < j
        invariant
            i <= j < signers@.len(),
            forall|k: int| 0 <= k < i ==> signers@[k].label@ != signers@[j as int].label@,
        decreases j - i,
    {
        if str_equal(signers[i].label.as_str(), signers[j].label.as_str()) {
            return true;
        }
        i = i + 1;
    }
    false
}

/// Checks the structure of a race plan before any signer is authenticated
/// and returns whether it runs in multi-signer mode.
pub fn validate_race_plan(args: &RaceArgs) -> (r: Result<bool, PlanError>)
    ensures
        match r {
            Ok(multi) => plan_outcome(*args) == Ok::<bool, PlanErrorModel>(multi),
            Err(e) => plan_outcome(*args) == Err::<bool, PlanErrorModel>(e@),
        },
{
    let orders = &args.orders;
    let steps = &args.steps;
    let signers = &args.signers;
    if orders.len() == 0 {
        return Err(PlanError::NoOrders);
    }
    if steps.len() == 0 {
        return Err(PlanError::NoSteps);
    }
    // Order labels unique.
    let mut j: usize = 0;
    while j < orders.len()
        invariant
            orders@ == args.orders@,
            steps@ == args.steps@,
            signers@ == args.signers@,
            j <= orders@.len(),
            orders@.len() > 0,
            steps@.len() > 0,
            first_duplicate_order(orders@, j as int) is None,
        decreases orders@.len() - j,
    {
        if order_seen_before(orders, j) {
            assert(first_duplicate_order(orders@, j + 1) == Some(j as int));
            proof {
                lemma_first_duplicate_order_found(orders@, orders@.len() as int, j + 1);
            }
            return Err(PlanError::DuplicateOrder(orders[j].label.clone()));
        }
        j = j + 1;
    }
    // Step references resolve.
    let mut k: usize = 0;
    while k < steps.len()
        invariant
            orders@ == args.orders@,
            steps@ == args.steps@,
            signers@ == args.signers@,
            k <= steps@.len(),
            orders@.len() > 0,
            steps@.len() > 0,
            first_duplicate_order(orders@, orders@.len() as int) is None,
            first_unknown_step(steps@, orders@, k as int) is None,
        decreases steps@.len() - k,
    {
        match &steps[k] {
            StepSpec::Submit(l) | StepSpec::Cancel(l) => {
                if !find_order_label(orders, l) {
                    assert(first_unknown_step(steps@, orders@, k + 1) == Some(k as int));
                    proof {
                        lemma_first_unknown_step_found(steps@, orders@, steps@.len() as int, k + 1);
                    }
                    return Err(PlanError::UnknownOrderLabel(l.clone()));
                }
            },
            StepSpec::Wait(_) => {},
        }
        k = k + 1;
    }
    // Signer labels unique.
    let mut j: usize = 0;
    while j < signers.len()
        invariant
            orders@ == args.orders@,
            steps@ == args.steps@,
            signers@ == args.signers@,
            j <= signers@.len(),
            orders@.len() > 0,
            steps@.len() > 0,
            first_duplicate_order(orders@, orders@.len() as int) is None,
            first_unknown_step(steps@, orders@, steps@.len() as int) is None,
            first_duplicate_signer(signers@, j as int) is None,
        decreases signers@.len() - j,
    {
        if signer_seen_before(signers, j) {
            assert(first_duplicate_signer(signers@, j + 1) == Some(j as int));
            proof {
                lemma_first_duplicate_signer_found(signers@, signers@.len() as int, j + 1);
            }
            return Err(PlanError::DuplicateSigner(signers[j].label.clone()));
        }
        j = j + 1;
    }
    // With signers, every order names a defined one; without, none names any.
    let multi = signers.len() > 0;
    let mut j: usize = 0;
    while j < orders.len()
        invariant
            orders@ == args.orders@,
            steps@ == args.steps@,
            signers@ == args.signers@,
            j <= orders@.len(),
            multi == (signers@.len() > 0),
            orders@.len() > 0,
            steps@.len() > 0,
            first_duplicate_order(orders@, orders@.len() as int) is None,
            first_unknown_step(steps@, orders@, steps@.len() as int) is None,
            first_duplicate_signer(signers@, signers@.len() as int) is None,
            first_bad_order_signer(orders@, multi, signers@, j as int) is None,
        decreases orders@.len() - j,
    {
        let o = &orders[j];
        match &o.signer {
            None => {
                if multi {
                    assert(first_bad_order_signer(orders@, multi, signers@, j + 1) == Some(j as int));
                    proof {
                        lemma_first_bad_order_signer_found(
                            orders@,
                            multi,
                            signers@,
                            orders@.len() as int,
                            j + 1,
                        );
                    }
                    return Err(PlanError::MissingSigner(o.label.clone()));
                }
            },
            Some(sig) => {
                if !multi {
                    assert(first_bad_order_signer(orders@, multi, signers@, j + 1) == Some(j as int));
                    proof {
                        lemma_first_bad_order_signer_found(
                            orders@,
                            multi,
                            signers@,
                            orders@.len() as int,
                            j + 1,
                        );
                    }
                    return Err(PlanError::UnexpectedSigner(o.label.clone()));
                }
                if !find_signer_label(signers, sig) {
                    assert(first_bad_order_signer(orders@, multi, signers@, j + 1) == Some(j as int));
                    proof {
                        lemma_first_bad_order_signer_found(
                            orders@,
                            multi,
                            signers@,
                            orders@.len() as int,
                            j + 1,
                        );
                    }
                    return Err(
                        PlanError::UnknownSigner { order: o.label.clone(), signer: sig.clone() },
                    );
                }
            },
        }
        j = j + 1;
    }
    Ok(multi)
}

} // verus!
