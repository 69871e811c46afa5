//! One run of a race plan: which wallets are authenticated, how each order
//! is prepared before the timed phase, and the dispatch of each step to the
//! order's own signer during it.
use vstd::prelude::*;

use crate::plan::{is_multi_signer, RaceArgs};
use crate::race::{opt_view, OrderSpec, StepSpec, DEFAULT_SIGNER_LABEL};
use crate::text::str_equal;
use crate::number::{limbs_value, u256_value_from_str};
use crate::trusted::{decimal_from_str, decimal_parts_from_str, token_id_from_str};

verus! {

/// A wallet to authenticate for the run.
#[derive(Clone, Debug)]
pub struct SignerSetup {
    /// The label its orders refer to.
    pub label: String,
    /// Its private key; `None` for the configured default wallet.
    pub private_key: Option<String>,
    /// Its signature-type name as given, if any.
    pub signature_type: Option<String>,
}

/// The wallets to authenticate: every `--signer` in order when there are
/// any, else the single default wallet under the sentinel label, with the
/// global signature-type flag.
pub fn signer_setups(args: &RaceArgs, signature_type: Option<&str>) -> (r: Vec<SignerSetup>)
    ensures
        is_multi_signer(*args) ==> {
            &&& r@.len() == args.signers@.len()
            &&& forall|i: int|
                0 <= i < r@.len() ==> {
                    &&& (#[trigger] r@[i]).label@ == args.signers@[i].label@
                    &&& opt_view(r@[i].private_key) == Some(args.signers@[i].private_key@)
                    &&& opt_view(r@[i].signature_type) == opt_view(
                        args.signers@[i].signature_type,
                    )
                }
        },
        !is_multi_signer(*args) ==> {
            &&& r@.len() == 1
            &&& r@[0].label@ == DEFAULT_SIGNER_LABEL@
            &&& r@[0].private_key is None
            &&& opt_view(r@[0].signature_type) == match signature_type {
                Some(t) => Some(t@),
                None => None,
            }
        },
{
    let mut r: Vec<SignerSetup> = Vec::new();
    if args.signers.len() > 0 {
        let mut i: usize = 0;
        while i < args.signers.len()
            invariant
                i <= args.signers@.len(),
                r@.len() == i,
                forall|k: int|
                    0 <= k < i ==> {
                        &&& (#[trigger] r@[k]).label@ == args.signers@[k].label@
                        &&& opt_view(r@[k].private_key) == Some(args.signers@[k].private_key@)
                        &&& opt_view(r@[k].signature_type) == opt_view(
                            args.signers@[k].signature_type,
                        )
                    },
            decreases args.signers@.len() - i,
        {
            let s = &args.signers[i];
            let signature_type = match &s.signature_type {
                Some(t) => Some(t.clone()),
                None => None,
            };
            r.push(
                SignerSetup {
                    label: s.label.clone(),
                    private_key: Some(s.private_key.clone()),
                    signature_type,
                },
            );
            i = i + 1;
        }
    } else {
        let signature_type = match signature_type {
            Some(t) => Some(t.to_owned()),
            None => None,
        };
        r.push(
            SignerSetup {
                label: DEFAULT_SIGNER_LABEL.to_owned(),
                private_key: None,
                signature_type,
            },
        );
    }
    r
}

/// Whether some wallet to authenticate has label `l`.
pub open spec fn setup_has_label(setups: Seq<SignerSetup>, l: Seq<char>) -> bool {
    exists|i: int| 0 <= i < setups.len() && #[trigger] setups[i].label@ == l
}

fn find_setup(setups: &Vec<SignerSetup>, l: &String) -> (r: bool)
    ensures
        r == setup_has_label(setups@, l@),
{
    let mut i: usize = 0;
    while i < setups.len()
        invariant
            i <= setups@.len(),
            forall|j: int| 0 <= j < i ==> setups@[j].label@ != l@,
        decreases setups@.len() - i,
    {
        if str_equal(setups[i].label.as_str(), l.as_str()) {
            return true;
        }
        i = i + 1;
    }
    false
}

/// The signer label of an order: its `@SIGNER` with named signers, the
/// default sentinel otherwise.
pub open spec fn order_signer(order: OrderSpec, multi: bool) -> Seq<char> {
    if multi {
        order.signer->0@
    } else {
        DEFAULT_SIGNER_LABEL@
    }
}

/// The signer label an order is signed, submitted and cancelled with.
pub fn order_signer_label(order: &OrderSpec, multi: bool) -> (r: String)
    requires
        multi ==> order.signer is Some,
    ensures
        r@ == order_signer(*order, multi),
{
    if multi {
        match &order.signer {
            Some(s) => s.clone(),
            None => DEFAULT_SIGNER_LABEL.to_owned(),
        }
    } else {
        DEFAULT_SIGNER_LABEL.to_owned()
    }
}

/// A decimal number `mantissa / 10^scale`, with its sign bit (which also
/// tells a negative zero).
#[derive(Clone, Copy, Debug, PartialEq, Eq)]
pub struct DecimalValue {
    pub mantissa: i128,
    pub scale: u32,
    pub negative: bool,
}

/// An order with its numbers read, ready to be built and signed.
#[derive(Clone, Debug)]
pub struct PreparedOrder {
    pub signer_label: String,
    /// The token id as four little-endian 64-bit limbs.
    pub token_id: [u64; 4],
    pub price: DecimalValue,
    pub size: DecimalValue,
}

/// Why an order could not be prepared.
#[derive(Debug)]
pub enum PrepareError {
    /// No wallet is authenticated under the order's signer label.
    NoBundle(String),
    /// The token is not a 256-bit unsigned integer.
    BadToken(alloy::primitives::ruint::ParseError),
    /// The price is not a decimal.
    BadPrice(rust_decimal::Error),
    /// The size is not a decimal.
    BadSize(rust_decimal::Error),
}

/// Looks up the order's wallet and reads its token id, price and size, in
/// that order, stopping at the first failure.
pub fn prepare_order(order: &OrderSpec, multi: bool, setups: &Vec<SignerSetup>) -> (r: Result<
    PreparedOrder,
    PrepareError,
>)
    requires
        multi ==> order.signer is Some,
    ensures
        ({
            let signer = order_signer(*order, multi);
            if !setup_has_label(setups@, signer) {
                r matches Err(PrepareError::NoBundle(l)) && l@ == signer
            } else if u256_value_from_str(order.token@) is None {
                r matches Err(PrepareError::BadToken(_))
            } else if decimal_from_str(order.price@) is None {
                r matches Err(PrepareError::BadPrice(_))
            } else if decimal_from_str(order.size@) is None {
                r matches Err(PrepareError::BadSize(_))
            } else {
                r matches Ok(p) && p.signer_label@ == signer && u256_value_from_str(order.token@)
                    == Some(limbs_value(p.token_id@)) && decimal_from_str(order.price@) == Some(
                    (p.price.mantissa, p.price.scale, p.price.negative),
                ) && decimal_from_str(order.size@) == Some(
                    (p.size.mantissa, p.size.scale, p.size.negative),
                )
            }
        }),
{
    let signer_label = order_signer_label(order, multi);
    if !find_setup(setups, &signer_label) {
        return Err(PrepareError::NoBundle(signer_label));
    }
    let token_id = match token_id_from_str(order.token.as_str()) {
        Ok(t) => t,
        Err(e) => return Err(PrepareError::BadToken(e)),
    };
    let price = match decimal_parts_from_str(order.price.as_str()) {
        Ok((mantissa, scale, negative)) => DecimalValue { mantissa, scale, negative },
        Err(e) => return Err(PrepareError::BadPrice(e)),
    };
    let size = match decimal_parts_from_str(order.size.as_str()) {
        Ok((mantissa, scale, negative)) => DecimalValue { mantissa, scale, negative },
        Err(e) => return Err(PrepareError::BadSize(e)),
    };
    Ok(PreparedOrder { signer_label, token_id, price, size })
}

/// What the run knows of one prepared order: its label, the signer it was
/// signed with, and whether a submit step has already sent it.
#[derive(Clone, Debug)]
pub struct LedgerEntry {
    pub order_label: String,
    pub signer_label: String,
    pub submitted: bool,
}

/// The orders of one run, one entry per order label.
pub struct RunLedger {
    entries: Vec<LedgerEntry>,
}

/// No two entries are for the same order label.
pub open spec fn labels_distinct(entries: Seq<LedgerEntry>) -> bool {
    forall|i: int, j: int|
        0 <= i < j < entries.len() ==> #[trigger] entries[i].order_label@
            != #[trigger] entries[j].order_label@
}

impl View for RunLedger {
    type V = Seq<LedgerEntry>;

    closed spec fn view(&self) -> Seq<LedgerEntry> {
        self.entries@
    }
}

/// The position among the first `n` entries of the entry for order `l`.
pub open spec fn entry_index(entries: Seq<LedgerEntry>, l: Seq<char>, n: int) -> Option<int>
    decreases n,
{
    if n <= 0 {
        None
    } else {
        match entry_index(entries, l, n - 1) {
            Some(i) => Some(i),
            None => if entries[n - 1].order_label@ == l {
                Some(n - 1)
            } else {
                None
            },
        }
    }
}

pub open spec fn find_entry(entries: Seq<LedgerEntry>, l: Seq<char>) -> Option<int> {
    entry_index(entries, l, entries.len() as int)
}

pub proof fn lemma_entry_index(entries: Seq<LedgerEntry>, l: Seq<char>, n: int)
    ensures
        match entry_index(entries, l, n) {
            Some(i) => 0 <= i < n && entries[i].order_label@ == l && forall|j: int|
                0 <= j < i ==> (#[trigger] entries[j]).order_label@ != l,
            None => forall|j: int| 0 <= j < n ==> (#[trigger] entries[j]).order_label@ != l,
        },
    decreases n,
{
    if n > 0 {
        lemma_entry_index(entries, l, n - 1);
    }
}

pub proof fn lemma_entry_index_found(entries: Seq<LedgerEntry>, l: Seq<char>, n: int, m: int)
    requires
        m <= n,
        entry_index(entries, l, m) is Some,
    ensures
        entry_index(entries, l, n) == entry_index(entries, l, m),
    decreases n,
{
    if n > m {
        lemma_entry_index_found(entries, l, n - 1, m);
    }
}

/// The entries after recording order `l` signed by `signer`: it replaces
/// an entry for the same order (which becomes unsent again), else is added.
pub open spec fn recorded(entries: Seq<LedgerEntry>, l: String, signer: String) -> Seq<LedgerEntry> {
    let e = LedgerEntry { order_label: l, signer_label: signer, submitted: false };
    match find_entry(entries, l@) {
        Some(i) => entries.update(i, e),
        None => entries.push(e),
    }
}

/// What the run does for one step.
#[derive(Clone, Debug)]
pub enum RaceAction {
    /// Post the order with this label through this signer's client.
    Submit { label: String, signer_label: String },
    /// Cancel the order with this label through this signer's client.
    Cancel { label: String, signer_label: String },
    /// Sleep this many milliseconds.
    Wait(u64),
}

/// Why a step could not be carried out.
#[derive(Clone, Debug)]
pub enum RunError {
    /// The order was already sent by an earlier submit step (or was never prepared).
    AlreadySubmitted(String),
    /// No order id was derived for this label.
    MissingOrderId(String),
    /// No wallet is authenticated under this signer label.
    MissingBundle(String),
}

pub enum RaceActionModel {
    Submit { label: Seq<char>, signer_label: Seq<char> },
    Cancel { label: Seq<char>, signer_label: Seq<char> },
    Wait(u64),
}

pub enum RunErrorModel {
    AlreadySubmitted(Seq<char>),
    MissingOrderId(Seq<char>),
    MissingBundle(Seq<char>),
}

impl View for RaceAction {
    type V = RaceActionModel;

    open spec fn view(&self) -> RaceActionModel {
        match self {
            RaceAction::Submit { label, signer_label } => RaceActionModel::Submit {
                label: label@,
                signer_label: signer_label@,
            },
            RaceAction::Cancel { label, signer_label } => RaceActionModel::Cancel {
                label: label@,
                signer_label: signer_label@,
            },
            RaceAction::Wait(ms) => RaceActionModel::Wait(*ms),
        }
    }
}

impl View for RunError {
    type V = RunErrorModel;

    open spec fn view(&self) -> RunErrorModel {
        match self {
            RunError::AlreadySubmitted(l) => RunErrorModel::AlreadySubmitted(l@),
            RunError::MissingOrderId(l) => RunErrorModel::MissingOrderId(l@),
            RunError::MissingBundle(l) => RunErrorModel::MissingBundle(l@),
        }
    }
}

/// The entries after a step: a submit marks its order sent; nothing else changes them.
pub open spec fn entries_after_step(entries: Seq<LedgerEntry>, step: StepSpec) -> Seq<LedgerEntry> {
    match step {
        StepSpec::Submit(l) => match find_entry(entries, l@) {
            Some(i) => if entries[i].submitted {
                entries
            } else {
                entries.update(i, LedgerEntry { submitted: true, ..entries[i] })
            },
            None => entries,
        },
        _ => entries,
    }
}

/// What a step does: a submit sends an order not sent before, a cancel
/// names any prepared order (sent or not), both through the signer the
/// order was signed with, which must be authenticated; a wait sleeps.
pub open spec fn step_outcome(
    entries: Seq<LedgerEntry>,
    step: StepSpec,
    setups: Seq<SignerSetup>,
) -> Result<RaceActionModel, RunErrorModel> {
    match step {
        StepSpec::Submit(l) => match find_entry(entries, l@) {
            Some(i) => if entries[i].submitted {
                Err(RunErrorModel::AlreadySubmitted(l@))
            } else if !setup_has_label(setups, entries[i].signer_label@) {
                Err(RunErrorModel::MissingBundle(entries[i].signer_label@))
            } else {
                Ok(RaceActionModel::Submit { label: l@, signer_label: entries[i].signer_label@ })
            },
            None => Err(RunErrorModel::AlreadySubmitted(l@)),
        },
        StepSpec::Cancel(l) => match find_entry(entries, l@) {
            Some(i) => if !setup_has_label(setups, entries[i].signer_label@) {
                Err(RunErrorModel::MissingBundle(entries[i].signer_label@))
            } else {
                Ok(RaceActionModel::Cancel { label: l@, signer_label: entries[i].signer_label@ })
            },
            None => Err(RunErrorModel::MissingOrderId(l@)),
        },
        StepSpec::Wait(ms) => Ok(RaceActionModel::Wait(ms)),
    }
}

impl RunLedger {
    #[verifier::type_invariant]
    spec fn well_formed(self) -> bool {
        labels_distinct(self.entries@)
    }

    /// A ledger with no orders.
    pub fn new() -> (r: RunLedger)
        ensures
            r@.len() == 0,
            labels_distinct(r@),
    {
        RunLedger { entries: Vec::new() }
    }

    /// The entries, one per order label.
    pub fn entries(&self) -> (r: &Vec<LedgerEntry>)
        ensures
            r@ == self@,
            labels_distinct(r@),
    {
        proof {
            use_type_invariant(self);
        }
        &self.entries
    }

    fn position(&self, l: &String) -> (r: Option<usize>)
        ensures
            match r {
                Some(i) => i < self@.len() && find_entry(self@, l@) == Some(i as int),
                None => find_entry(self@, l@) is None,
            },
    {
        let mut i: usize = 0;
        while i < self.entries.len()
            invariant
                i <= self.entries@.len(),
                entry_index(self.entries@, l@, i as int) is None,
            decreases self.entries@.len() - i,
        {
            if str_equal(self.entries[i].order_label.as_str(), l.as_str()) {
                assert(entry_index(self.entries@, l@, i + 1) == Some(i as int));
                proof {
                    lemma_entry_index_found(
                        self.entries@,
                        l@,
                        self.entries@.len() as int,
                        i + 1,
                    );
                }
                return Some(i);
            }
            i = i + 1;
        }
        None
    }

    /// Records a prepared, signed order under its label with the signer it
    /// was signed with, ready to be submitted.
    pub fn record_order(&mut self, order_label: String, signer_label: String)
        ensures
            final(self)@ == recorded(old(self)@, order_label, signer_label),
            labels_distinct(final(self)@),
    {
        proof {
            use_type_invariant(&*self);
        }
        let ghost before = self@;
        let e = LedgerEntry { order_label: order_label.clone(), signer_label, submitted: false };
        let pos = self.position(&order_label);
        let mut entries: Vec<LedgerEntry> = Vec::new();
        std::mem::swap(&mut entries, &mut self.entries);
        proof {
            lemma_entry_index(before, order_label@, before.len() as int);
        }
        match pos {
            Some(i) => {
                entries.set(i, e);
            },
            None => {
                entries.push(e);
            },
        }
        assert(labels_distinct(entries@)) by {
            assert forall|a: int, b: int| 0 <= a < b < entries@.len() implies #[trigger] entries@[
                a
            ].order_label@ != #[trigger] entries@[b].order_label@ by {
                if pos is None && b == before.len() {
                    assert(before[a].order_label@ != order_label@);
                } else {
                    assert(before[a].order_label@ != before[b].order_label@);
                }
            }
        }
        self.entries = entries;
    }

    /// Decides what one step of the timed phase does, marking a submitted
    /// order as sent.
    pub fn next_action(&mut self, step: &StepSpec, setups: &Vec<SignerSetup>) -> (r: Result<
        RaceAction,
        RunError,
    >)
        ensures
            final(self)@ == entries_after_step(old(self)@, *step),
            labels_distinct(final(self)@),
            *step matches StepSpec::Wait(ms) ==> (r matches Ok(RaceAction::Wait(m)) && m == ms),
            match r {
                Ok(a) => step_outcome(old(self)@, *step, setups@) == Ok::<
                    RaceActionModel,
                    RunErrorModel,
                >(a@),
                Err(e) => step_outcome(old(self)@, *step, setups@) == Err::<
                    RaceActionModel,
                    RunErrorModel,
                >(e@),
            },
    {
        proof {
            use_type_invariant(&*self);
        }
        match step {
            StepSpec::Submit(l) => {
                let i = match self.position(l) {
                    Some(i) => i,
                    None => return Err(RunError::AlreadySubmitted(l.clone())),
                };
                if self.entries[i].submitted {
                    return Err(RunError::AlreadySubmitted(l.clone()));
                }
                let ghost before = self@;
                let signer_label = self.entries[i].signer_label.clone();
                let e = LedgerEntry {
                    order_label: self.entries[i].order_label.clone(),
                    signer_label: signer_label.clone(),
                    submitted: true,
                };
                let mut entries: Vec<LedgerEntry> = Vec::new();
                std::mem::swap(&mut entries, &mut self.entries);
                entries.set(i, e);
                assert(labels_distinct(entries@)) by {
                    assert forall|a: int, b: int|
                        0 <= a < b < entries@.len() implies #[trigger] entries@[a].order_label@
                        != #[trigger] entries@[b].order_label@ by {
                        assert(before[a].order_label@ != before[b].order_label@);
                    }
                }
                self.entries = entries;
                if !find_setup(setups, &signer_label) {
                    return Err(RunError::MissingBundle(signer_label));
                }
                Ok(RaceAction::Submit { label: l.clone(), signer_label })
            },
            StepSpec::Cancel(l) => {
                let i = match self.position(l) {
                    Some(i) => i,
                    None => return Err(RunError::MissingOrderId(l.clone())),
                };
                let signer_label = self.entries[i].signer_label.clone();
                if !find_setup(setups, &signer_label) {
                    return Err(RunError::MissingBundle(signer_label));
                }
                Ok(RaceAction::Cancel { label: l.clone(), signer_label })
            },
            StepSpec::Wait(ms) => Ok(RaceAction::Wait(*ms)),
        }
    }
}

} // verus!
