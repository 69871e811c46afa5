//! The race-runner's command-line specs: `--signer LABEL=KEY[:SIG_TYPE]`,
//! `--order LABEL=TOKEN:SIDE:PRICE:SIZE[:TYPE][@SIGNER]` and
//! `--step submit:LABEL | cancel:LABEL | wait:MS`.
use vstd::prelude::*;

use crate::number::{parse_u64, u64_from_decimal};
use crate::text::{
    chars_of, find_from, lemma_first_index_upto, lowercased, uppercased, lemma_last_index_upto, lemma_string_views, rfind,
    rsplit_once, split_all, split_fields, split_once, str_equal, substring,
};
use crate::trusted::{to_lowercase, to_uppercase};

verus! {

/// Sentinel signer label used when callers pass a single private key and
/// orders don't tag a `@SIGNER`.
pub const DEFAULT_SIGNER_LABEL: &'static str = "<default>";

/// Side of an order.
#[derive(Clone, Copy, Debug, PartialEq, Eq, Structural)]
pub enum CliSide {
    Buy,
    Sell,
}

/// Time in force of an order.
#[derive(Clone, Copy, Debug, PartialEq, Eq, Structural)]
pub enum CliOrderType {
    Gtc,
    Fok,
    Gtd,
    Fak,
}

/// One `--signer LABEL=PRIVATE_KEY[:SIG_TYPE]`.
#[derive(Clone, Debug)]
pub struct SignerSpec {
    pub label: String,
    pub private_key: String,
    pub signature_type: Option<String>,
}

/// One `--order LABEL=TOKEN:SIDE:PRICE:SIZE[:TYPE][@SIGNER]`.
#[derive(Clone, Debug)]
pub struct OrderSpec {
    pub label: String,
    pub token: String,
    pub side: CliSide,
    pub price: String,
    pub size: String,
    pub order_type: CliOrderType,
    /// `Some(label)` if the user wrote `@LABEL`, otherwise `None` (use default).
    pub signer: Option<String>,
}

/// One `--step`.
#[derive(Clone, Debug)]
pub enum StepSpec {
    Submit(String),
    Cancel(String),
    Wait(u64),
}

/// Why a `--signer` spec was refused.
#[derive(Clone, Copy, Debug, PartialEq, Eq, Structural)]
pub enum SignerSpecError {
    /// No `=` between label and key.
    MissingEquals,
    /// The label before `=` is empty.
    EmptyLabel,
    /// The label is the reserved default sentinel.
    ReservedLabel,
}

/// Why an `--order` spec was refused.
#[derive(Clone, Debug)]
pub enum OrderSpecError {
    /// No `=` between label and body.
    MissingEquals,
    /// The body does not have 4 or 5 colon-separated fields.
    FieldCount,
    /// The side field, lowercased, is neither `buy` nor `sell`.
    UnknownSide(String),
    /// The type field, uppercased, is none of `GTC`, `FOK`, `GTD`, `FAK`.
    UnknownOrderType(String),
}

/// Why a `--step` spec was refused.
#[derive(Clone, Debug)]
pub enum StepSpecError {
    /// No `:` between kind and argument.
    MissingColon,
    /// The kind, lowercased, is none of `submit`, `cancel`, `wait`.
    UnknownKind(String),
    /// The argument of `wait` is not a decimal `u64`.
    InvalidWait(String),
}

pub struct SignerSpecModel {
    pub label: Seq<char>,
    pub private_key: Seq<char>,
    pub signature_type: Option<Seq<char>>,
}

pub struct OrderSpecModel {
    pub label: Seq<char>,
    pub token: Seq<char>,
    pub side: CliSide,
    pub price: Seq<char>,
    pub size: Seq<char>,
    pub order_type: CliOrderType,
    pub signer: Option<Seq<char>>,
}

pub enum OrderSpecErrorModel {
    MissingEquals,
    FieldCount,
    UnknownSide(Seq<char>),
    UnknownOrderType(Seq<char>),
}

pub enum StepSpecModel {
    Submit(Seq<char>),
    Cancel(Seq<char>),
    Wait(u64),
}

pub enum StepSpecErrorModel {
    MissingColon,
    UnknownKind(Seq<char>),
    InvalidWait(Seq<char>),
}

pub open spec fn opt_view(o: Option<String>) -> Option<Seq<char>> {
    match o {
        Some(s) => Some(s@),
        None => None,
    }
}

impl View for SignerSpec {
    type V = SignerSpecModel;

    open spec fn view(&self) -> SignerSpecModel {
        SignerSpecModel {
            label: self.label@,
            private_key: self.private_key@,
            signature_type: opt_view(self.signature_type),
        }
    }
}

impl View for OrderSpec {
    type V = OrderSpecModel;

    open spec fn view(&self) -> OrderSpecModel {
        OrderSpecModel {
            label: self.label@,
            token: self.token@,
            side: self.side,
            price: self.price@,
            size: self.size@,
            order_type: self.order_type,
            signer: opt_view(self.signer),
        }
    }
}

impl View for StepSpec {
    type V = StepSpecModel;

    open spec fn view(&self) -> StepSpecModel {
        match self {
            StepSpec::Submit(l) => StepSpecModel::Submit(l@),
            StepSpec::Cancel(l) => StepSpecModel::Cancel(l@),
            StepSpec::Wait(ms) => StepSpecModel::Wait(*ms),
        }
    }
}

impl View for OrderSpecError {
    type V = OrderSpecErrorModel;

    open spec fn view(&self) -> OrderSpecErrorModel {
        match self {
            OrderSpecError::MissingEquals => OrderSpecErrorModel::MissingEquals,
            OrderSpecError::FieldCount => OrderSpecErrorModel::FieldCount,
            OrderSpecError::UnknownSide(s) => OrderSpecErrorModel::UnknownSide(s@),
            OrderSpecError::UnknownOrderType(s) => OrderSpecErrorModel::UnknownOrderType(s@),
        }
    }
}

impl View for StepSpecError {
    type V = StepSpecErrorModel;

    open spec fn view(&self) -> StepSpecErrorModel {
        match self {
            StepSpecError::MissingColon => StepSpecErrorModel::MissingColon,
            StepSpecError::UnknownKind(s) => StepSpecErrorModel::UnknownKind(s@),
            StepSpecError::InvalidWait(s) => StepSpecErrorModel::InvalidWait(s@),
        }
    }
}

/// The signature-type names a `--signer` suffix may carry (after lowercasing).
pub open spec fn is_signature_type_name(t: Seq<char>) -> bool {
    t == "proxy"@ || t == "eoa"@ || t == "gnosis-safe"@
}

/// What `--signer s` denotes. The key is everything after the first `=`,
/// unless its last `:`-field is a known signature type: then that field is
/// the signature type (kept as written) and the key is what precedes it.
pub open spec fn signer_spec_outcome(s: Seq<char>) -> Result<SignerSpecModel, SignerSpecError> {
    match split_once(s, '=') {
        None => Err(SignerSpecError::MissingEquals),
        Some((label, rest)) => {
            if label.len() == 0 {
                Err(SignerSpecError::EmptyLabel)
            } else if label == DEFAULT_SIGNER_LABEL@ {
                Err(SignerSpecError::ReservedLabel)
            } else {
                match rsplit_once(rest, ':') {
                    Some((key, t)) => if is_signature_type_name(lowercased(t)) {
                        Ok(SignerSpecModel { label, private_key: key, signature_type: Some(t) })
                    } else {
                        Ok(SignerSpecModel { label, private_key: rest, signature_type: None })
                    },
                    None => Ok(SignerSpecModel { label, private_key: rest, signature_type: None }),
                }
            }
        },
    }
}

/// The side a lowercased side field names.
pub open spec fn side_named(lower: Seq<char>) -> Option<CliSide> {
    if lower == "buy"@ {
        Some(CliSide::Buy)
    } else if lower == "sell"@ {
        Some(CliSide::Sell)
    } else {
        None
    }
}

/// The order type an uppercased type field names.
pub open spec fn order_type_named(upper: Seq<char>) -> Option<CliOrderType> {
    if upper == "GTC"@ {
        Some(CliOrderType::Gtc)
    } else if upper == "FOK"@ {
        Some(CliOrderType::Fok)
    } else if upper == "GTD"@ {
        Some(CliOrderType::Gtd)
    } else if upper == "FAK"@ {
        Some(CliOrderType::Fak)
    } else {
        None
    }
}

/// The body of an order spec and its signer: a non-empty text after the
/// last `@` names the signer and is cut off; otherwise the body is kept whole.
pub open spec fn order_body_and_signer(rest: Seq<char>) -> (Seq<char>, Option<Seq<char>>) {
    match rsplit_once(rest, '@') {
        Some((before, sig)) => if sig.len() > 0 {
            (before, Some(sig))
        } else {
            (rest, None)
        },
        None => (rest, None),
    }
}

/// The type field of an order body: the fifth field, `GTC` where there are four.
pub open spec fn order_type_field(parts: Seq<Seq<char>>) -> Seq<char> {
    if parts.len() == 5 {
        parts[4]
    } else {
        "GTC"@
    }
}

/// What `--order s` denotes.
pub open spec fn order_spec_outcome(s: Seq<char>) -> Result<OrderSpecModel, OrderSpecErrorModel> {
    match split_once(s, '=') {
        None => Err(OrderSpecErrorModel::MissingEquals),
        Some((label, rest)) => {
            let (body, signer) = order_body_and_signer(rest);
            let parts = split_all(body, ':');
            if parts.len() < 4 || parts.len() > 5 {
                Err(OrderSpecErrorModel::FieldCount)
            } else {
                let lower_side = lowercased(parts[1]);
                match side_named(lower_side) {
                    None => Err(OrderSpecErrorModel::UnknownSide(lower_side)),
                    Some(side) => {
                        let upper_type = uppercased(order_type_field(parts));
                        match order_type_named(upper_type) {
                            None => Err(OrderSpecErrorModel::UnknownOrderType(upper_type)),
                            Some(order_type) => Ok(
                                OrderSpecModel {
                                    label,
                                    token: parts[0],
                                    side,
                                    price: parts[2],
                                    size: parts[3],
                                    order_type,
                                    signer,
                                },
                            ),
                        }
                    },
                }
            }
        },
    }
}

/// What `--step s` denotes.
pub open spec fn step_spec_outcome(s: Seq<char>) -> Result<StepSpecModel, StepSpecErrorModel> {
    match split_once(s, ':') {
        None => Err(StepSpecErrorModel::MissingColon),
        Some((kind, arg)) => {
            let lower = lowercased(kind);
            if lower == "submit"@ {
                Ok(StepSpecModel::Submit(arg))
            } else if lower == "cancel"@ {
                Ok(StepSpecModel::Cancel(arg))
            } else if lower == "wait"@ {
                match u64_from_decimal(arg) {
                    Some(ms) => Ok(StepSpecModel::Wait(ms)),
                    None => Err(StepSpecErrorModel::InvalidWait(arg)),
                }
            } else {
                Err(StepSpecErrorModel::UnknownKind(lower))
            }
        },
    }
}

/// Whether an already lowercased `:SIG_TYPE` suffix names a signature type.
pub fn is_signature_type_label(lower: &str) -> (r: bool)
    ensures
        r == is_signature_type_name(lower@),
{
    str_equal(lower, "proxy") || str_equal(lower, "eoa") || str_equal(lower, "gnosis-safe")
}

/// The side that an already lowercased side field names.
pub fn side_from_lowercase(lower: &str) -> (r: Option<CliSide>)
    ensures
        r == side_named(lower@),
{
    if str_equal(lower, "buy") {
        Some(CliSide::Buy)
    } else if str_equal(lower, "sell") {
        Some(CliSide::Sell)
    } else {
        None
    }
}

/// The order type that an already uppercased type field names.
pub fn order_type_from_uppercase(upper: &str) -> (r: Option<CliOrderType>)
    ensures
        r == order_type_named(upper@),
{
    if str_equal(upper, "GTC") {
        Some(CliOrderType::Gtc)
    } else if str_equal(upper, "FOK") {
        Some(CliOrderType::Fok)
    } else if str_equal(upper, "GTD") {
        Some(CliOrderType::Gtd)
    } else if str_equal(upper, "FAK") {
        Some(CliOrderType::Fak)
    } else {
        None
    }
}

/// Cuts `s` at its first `c`.
fn cut_first(s: &str, c: char) -> (r: Option<(String, String)>)
    ensures
        match r {
            Some((a, b)) => split_once(s@, c) == Some((a@, b@)),
            None => split_once(s@, c) is None,
        },
{
    let v = chars_of(s);
    let n = v.len();
    assert(v@.skip(0) =~= v@);
    match find_from(&v, c, 0) {
        Some(i) => {
            proof {
                lemma_first_index_upto(s@, c, s@.len() as int);
            }
            let a = substring(s, 0, i);
            let b = substring(s, i + 1, n);
            assert(a@ =~= s@.take(i as int));
            assert(b@ =~= s@.skip(i + 1));
            Some((a, b))
        },
        None => None,
    }
}

/// Cuts `s` at its last `c`.
fn cut_last(s: &str, c: char) -> (r: Option<(String, String)>)
    ensures
        match r {
            Some((a, b)) => rsplit_once(s@, c) == Some((a@, b@)),
            None => rsplit_once(s@, c) is None,
        },
{
    let v = chars_of(s);
    let n = v.len();
    match rfind(&v, c) {
        Some(i) => {
            proof {
                lemma_last_index_upto(s@, c, s@.len() as int);
            }
            let a = substring(s, 0, i);
            let b = substring(s, i + 1, n);
            assert(a@ =~= s@.take(i as int));
            assert(b@ =~= s@.skip(i + 1));
            Some((a, b))
        },
        None => None,
    }
}

/// Parses `LABEL=PRIVATE_KEY[:SIG_TYPE]`.
pub fn parse_signer_spec(s: &str) -> (r: Result<SignerSpec, SignerSpecError>)
    ensures
        match r {
            Ok(spec) => signer_spec_outcome(s@) == Ok::<SignerSpecModel, SignerSpecError>(spec@),
            Err(e) => signer_spec_outcome(s@) == Err::<SignerSpecModel, SignerSpecError>(e),
        },
        r matches Ok(spec) ==> spec.label@.len() > 0 && spec.label@ != DEFAULT_SIGNER_LABEL@,
{
    let (label, rest) = match cut_first(s, '=') {
        Some(p) => p,
        None => return Err(SignerSpecError::MissingEquals),
    };
    if label.unicode_len() == 0 {
        return Err(SignerSpecError::EmptyLabel);
    }
    if str_equal(label.as_str(), DEFAULT_SIGNER_LABEL) {
        return Err(SignerSpecError::ReservedLabel);
    }
    match cut_last(rest.as_str(), ':') {
        Some((key, t)) => {
            let lower = to_lowercase(t.as_str());
            if is_signature_type_label(lower.as_str()) {
                return Ok(SignerSpec { label, private_key: key, signature_type: Some(t) });
            }
        },
        None => {},
    }
    Ok(SignerSpec { label, private_key: rest, signature_type: None })
}

/// Parses `LABEL=TOKEN:SIDE:PRICE:SIZE[:TYPE][@SIGNER]`.
pub fn parse_order_spec(s: &str) -> (r: Result<OrderSpec, OrderSpecError>)
    ensures
        match r {
            Ok(spec) => order_spec_outcome(s@) == Ok::<OrderSpecModel, OrderSpecErrorModel>(spec@),
            Err(e) => order_spec_outcome(s@) == Err::<OrderSpecModel, OrderSpecErrorModel>(e@),
        },
{
    let (label, rest) = match cut_first(s, '=') {
        Some(p) => p,
        None => return Err(OrderSpecError::MissingEquals),
    };
    let (body, signer) = match cut_last(rest.as_str(), '@') {
        Some((before, sig)) => {
            if sig.unicode_len() > 0 {
                (before, Some(sig))
            } else {
                (rest, None)
            }
        },
        None => (rest, None),
    };
    let parts = split_fields(body.as_str(), ':');
    proof {
        lemma_string_views(parts@);
    }
    let n = parts.len();
    if n < 4 || n > 5 {
        return Err(OrderSpecError::FieldCount);
    }
    let lower_side = to_lowercase(parts[1].as_str());
    let side = match side_from_lowercase(lower_side.as_str()) {
        Some(side) => side,
        None => return Err(OrderSpecError::UnknownSide(lower_side)),
    };
    let upper_type = if n == 5 {
        to_uppercase(parts[4].as_str())
    } else {
        to_uppercase("GTC")
    };
    let order_type = match order_type_from_uppercase(upper_type.as_str()) {
        Some(t) => t,
        None => return Err(OrderSpecError::UnknownOrderType(upper_type)),
    };
    let token = parts[0].clone();
    let price = parts[2].clone();
    let size = parts[3].clone();
    Ok(OrderSpec { label, token, side, price, size, order_type, signer })
}

/// Parses `submit:LABEL`, `cancel:LABEL` or `wait:MS`.
pub fn parse_step_spec(s: &str) -> (r: Result<StepSpec, StepSpecError>)
    ensures
        match r {
            Ok(step) => step_spec_outcome(s@) == Ok::<StepSpecModel, StepSpecErrorModel>(step@),
            Err(e) => step_spec_outcome(s@) == Err::<StepSpecModel, StepSpecErrorModel>(e@),
        },
{
    let (kind, arg) = match cut_first(s, ':') {
        Some(p) => p,
        None => return Err(StepSpecError::MissingColon),
    };
    let lower = to_lowercase(kind.as_str());
    if str_equal(lower.as_str(), "submit") {
        Ok(StepSpec::Submit(arg))
    } else if str_equal(lower.as_str(), "cancel") {
        Ok(StepSpec::Cancel(arg))
    } else if str_equal(lower.as_str(), "wait") {
        match parse_u64(arg.as_str()) {
            Some(ms) => Ok(StepSpec::Wait(ms)),
            None => Err(StepSpecError::InvalidWait(arg)),
        }
    } else {
        Err(StepSpecError::UnknownKind(lower))
    }
}

} // verus!
