//! Properties of the library that relate several of its functions or hold
//! across calls, each proved from the models the functions' contracts use.
use vstd::prelude::*;

use crate::plan::{
    first_bad_order_signer, first_duplicate_order, first_duplicate_signer, first_unknown_step,
    has_order_label, has_signer_label, is_multi_signer, order_label_seen_before, order_signer_ok,
    plan_outcome, signer_label_seen_before, step_order_label, step_refers_to_unknown, PlanErrorModel,
    RaceArgs,
};
use crate::number::u64_from_decimal;
use crate::race::{
    order_body_and_signer, order_spec_outcome, signer_spec_outcome, step_spec_outcome, CliOrderType,
    CliSide, OrderSpec, OrderSpecErrorModel, SignerSpec, SignerSpecError, StepSpec, StepSpecErrorModel,
    StepSpecModel, DEFAULT_SIGNER_LABEL,
};
use crate::run::{
    entries_after_step, entry_index, find_entry, lemma_entry_index, order_signer, recorded,
    labels_distinct, setup_has_label, step_outcome, LedgerEntry, RaceActionModel, RunErrorModel,
    SignerSetup,
};
use vstd::utf8::is_ascii_chars;

use crate::text::{
    ascii_lower_char, ascii_lowercase, ascii_uppercase, index_of, join_with, lemma_first_index_upto,
    lemma_last_index_upto, lowercased, rsplit_once, split_all, split_once, uppercased,
};

verus! {

// ----- the plan -----

proof fn lemma_no_duplicate_order(orders: Seq<OrderSpec>, n: int)
    requires
        first_duplicate_order(orders, n) is None,
    ensures
        forall|j: int| 0 <= j < n ==> !#[trigger] order_label_seen_before(orders, j),
    decreases n,
{
    if n > 0 {
        lemma_no_duplicate_order(orders, n - 1);
    }
}

proof fn lemma_no_duplicate_signer(signers: Seq<SignerSpec>, n: int)
    requires
        first_duplicate_signer(signers, n) is None,
    ensures
        forall|j: int| 0 <= j < n ==> !#[trigger] signer_label_seen_before(signers, j),
    decreases n,
{
    if n > 0 {
        lemma_no_duplicate_signer(signers, n - 1);
    }
}

proof fn lemma_no_unknown_step(steps: Seq<StepSpec>, orders: Seq<OrderSpec>, n: int)
    requires
        first_unknown_step(steps, orders, n) is None,
    ensures
        forall|k: int| 0 <= k < n ==> !#[trigger] step_refers_to_unknown(steps, orders, k),
    decreases n,
{
    if n > 0 {
        lemma_no_unknown_step(steps, orders, n - 1);
    }
}

proof fn lemma_no_bad_order_signer(
    orders: Seq<OrderSpec>,
    multi: bool,
    signers: Seq<SignerSpec>,
    n: int,
)
    requires
        first_bad_order_signer(orders, multi, signers, n) is None,
    ensures
        forall|j: int| 0 <= j < n ==> #[trigger] order_signer_ok(orders[j], multi, signers),
    decreases n,
{
    if n > 0 {
        lemma_no_bad_order_signer(orders, multi, signers, n - 1);
    }
}

/// A plan accepted by `validate_race_plan` has orders and steps, distinct
/// order labels, only steps naming existing orders, distinct signer labels,
/// and is in multi-signer mode exactly when signers are given; then every
/// order names a defined signer, and without signers no order names one.
pub proof fn law_accepted_plan_is_consistent(args: RaceArgs)
    requires
        plan_outcome(args) is Ok,
    ensures
        plan_outcome(args) == Ok::<bool, PlanErrorModel>(args.signers@.len() > 0),
        args.orders@.len() > 0,
        args.steps@.len() > 0,
        forall|i: int, j: int|
            0 <= i < j < args.orders@.len() ==> #[trigger] args.orders@[i].label@
                != #[trigger] args.orders@[j].label@,
        forall|i: int, j: int|
            0 <= i < j < args.signers@.len() ==> #[trigger] args.signers@[i].label@
                != #[trigger] args.signers@[j].label@,
        forall|k: int|
            0 <= k < args.steps@.len() ==> match #[trigger] step_order_label(args.steps@[k]) {
                Some(l) => has_order_label(args.orders@, l),
                None => true,
            },
        forall|j: int|
            0 <= j < args.orders@.len() ==> match (#[trigger] args.orders@[j]).signer {
                Some(sig) => args.signers@.len() > 0 && has_signer_label(args.signers@, sig@),
                None => args.signers@.len() == 0,
            },
{
    let orders = args.orders@;
    let steps = args.steps@;
    let signers = args.signers@;
    let multi = is_multi_signer(args);
    lemma_no_duplicate_order(orders, orders.len() as int);
    lemma_no_unknown_step(steps, orders, steps.len() as int);
    lemma_no_duplicate_signer(signers, signers.len() as int);
    lemma_no_bad_order_signer(orders, multi, signers, orders.len() as int);
    assert forall|i: int, j: int| 0 <= i < j < orders.len() implies #[trigger] orders[i].label@
        != #[trigger] orders[j].label@ by {
        assert(!order_label_seen_before(orders, j));
    }
    assert forall|i: int, j: int| 0 <= i < j < signers.len() implies #[trigger] signers[i].label@
        != #[trigger] signers[j].label@ by {
        assert(!signer_label_seen_before(signers, j));
    }
    assert forall|k: int| 0 <= k < steps.len() implies match #[trigger] step_order_label(steps[k]) {
        Some(l) => has_order_label(orders, l),
        None => true,
    } by {
        assert(!step_refers_to_unknown(steps, orders, k));
    }
    assert forall|j: int| 0 <= j < orders.len() implies match (#[trigger] orders[j]).signer {
        Some(sig) => signers.len() > 0 && has_signer_label(signers, sig@),
        None => signers.len() == 0,
    } by {
        assert(order_signer_ok(orders[j], multi, signers));
    }
}

// ----- the run -----

/// The entries hold exactly the plan's orders, in order, each under the
/// signer it was signed with; whether each was sent is left open.
pub open spec fn ledger_matches_orders(
    entries: Seq<LedgerEntry>,
    orders: Seq<OrderSpec>,
    multi: bool,
) -> bool {
    &&& entries.len() == orders.len()
    &&& forall|i: int|
        0 <= i < entries.len() ==> {
            &&& (#[trigger] entries[i]).order_label@ == orders[i].label@
            &&& entries[i].signer_label@ == order_signer(orders[i], multi)
        }
}

/// The setups name every wallet the signer mode calls for: each `--signer`
/// label with named signers, the default sentinel otherwise.
pub open spec fn setups_cover_signers(setups: Seq<SignerSetup>, args: RaceArgs) -> bool {
    if is_multi_signer(args) {
        forall|i: int|
            0 <= i < args.signers@.len() ==> setup_has_label(
                setups,
                (#[trigger] args.signers@[i]).label@,
            )
    } else {
        setup_has_label(setups, DEFAULT_SIGNER_LABEL@)
    }
}

/// `signer_setups` covers the signers of every plan.
pub proof fn law_signer_setups_cover(args: RaceArgs, setups: Seq<SignerSetup>)
    requires
        is_multi_signer(args) ==> {
            &&& setups.len() == args.signers@.len()
            &&& forall|i: int|
                0 <= i < setups.len() ==> (#[trigger] setups[i]).label@ == args.signers@[i].label@
        },
        !is_multi_signer(args) ==> setups.len() == 1 && setups[0].label@ == DEFAULT_SIGNER_LABEL@,
    ensures
        setups_cover_signers(setups, args),
{
    if is_multi_signer(args) {
        assert forall|i: int| 0 <= i < args.signers@.len() implies setup_has_label(
            setups,
            (#[trigger] args.signers@[i]).label@,
        ) by {
            assert(setups[i].label@ == args.signers@[i].label@);
        }
    } else {
        assert(setups[0].label@ == DEFAULT_SIGNER_LABEL@);
    }
}

proof fn lemma_entry_index_same_labels(
    e1: Seq<LedgerEntry>,
    e2: Seq<LedgerEntry>,
    l: Seq<char>,
    n: int,
)
    requires
        n <= e1.len(),
        e1.len() == e2.len(),
        forall|i: int| 0 <= i < e1.len() ==> (#[trigger] e1[i]).order_label@ == e2[i].order_label@,
    ensures
        entry_index(e1, l, n) == entry_index(e2, l, n),
    decreases n,
{
    if n > 0 {
        lemma_entry_index_same_labels(e1, e2, l, n - 1);
    }
}

/// Whether an order was sent does not matter to a cancel step: two ledgers
/// that agree on orders and signers give the same outcome for `cancel:l`.
/// So a cancel can fire by order id before the submit's response is back.
pub proof fn law_cancel_ignores_submission(
    e1: Seq<LedgerEntry>,
    e2: Seq<LedgerEntry>,
    l: String,
    setups: Seq<SignerSetup>,
)
    requires
        e1.len() == e2.len(),
        forall|i: int|
            0 <= i < e1.len() ==> {
                &&& (#[trigger] e1[i]).order_label@ == e2[i].order_label@
                &&& e1[i].signer_label@ == e2[i].signer_label@
            },
    ensures
        step_outcome(e1, StepSpec::Cancel(l), setups) == step_outcome(
            e2,
            StepSpec::Cancel(l),
            setups,
        ),
{
    lemma_entry_index_same_labels(e1, e2, l@, e1.len() as int);
    lemma_entry_index(e1, l@, e1.len() as int);
}

/// After `submit:l` has gone out through signer `s`, `cancel:l` goes out
/// through the same signer `s`.
pub proof fn law_cancel_after_submit_uses_same_signer(
    entries: Seq<LedgerEntry>,
    l: String,
    setups: Seq<SignerSetup>,
)
    requires
        step_outcome(entries, StepSpec::Submit(l), setups) is Ok,
    ensures
        step_outcome(entries, StepSpec::Submit(l), setups) matches Ok(
            RaceActionModel::Submit { signer_label, .. },
        ) ==> step_outcome(
            entries_after_step(entries, StepSpec::Submit(l)),
            StepSpec::Cancel(l),
            setups,
        ) == Ok::<RaceActionModel, RunErrorModel>(
            RaceActionModel::Cancel { label: l@, signer_label },
        ),
{
    let after = entries_after_step(entries, StepSpec::Submit(l));
    lemma_entry_index(entries, l@, entries.len() as int);
    let i = find_entry(entries, l@)->0;
    assert forall|k: int| 0 <= k < entries.len() implies {
        &&& (#[trigger] entries[k]).order_label@ == after[k].order_label@
        &&& entries[k].signer_label@ == after[k].signer_label@
    } by {
        if k == i {
            assert(after[k] == LedgerEntry { submitted: true, ..entries[i] });
        }
    }
    lemma_entry_index_same_labels(entries, after, l@, entries.len() as int);
}

/// An order is sent at most once per run: once `submit:l` succeeded, the
/// next `submit:l` is refused as already submitted.
pub proof fn law_submit_at_most_once(entries: Seq<LedgerEntry>, l: String, setups: Seq<SignerSetup>)
    requires
        step_outcome(entries, StepSpec::Submit(l), setups) is Ok,
    ensures
        step_outcome(entries_after_step(entries, StepSpec::Submit(l)), StepSpec::Submit(l), setups)
            == Err::<RaceActionModel, RunErrorModel>(RunErrorModel::AlreadySubmitted(l@)),
{
    let after = entries_after_step(entries, StepSpec::Submit(l));
    lemma_entry_index(entries, l@, entries.len() as int);
    let i = find_entry(entries, l@)->0;
    assert forall|k: int| 0 <= k < entries.len() implies (#[trigger] entries[k]).order_label@
        == after[k].order_label@ by {
        if k == i {
            assert(after[k] == LedgerEntry { submitted: true, ..entries[i] });
        }
    }
    lemma_entry_index_same_labels(entries, after, l@, entries.len() as int);
    assert(after[i].submitted);
}

/// Steps keep the ledger matched to the plan's orders and signers.
pub proof fn law_steps_keep_ledger_matched(
    entries: Seq<LedgerEntry>,
    orders: Seq<OrderSpec>,
    multi: bool,
    step: StepSpec,
)
    requires
        ledger_matches_orders(entries, orders, multi),
    ensures
        ledger_matches_orders(entries_after_step(entries, step), orders, multi),
{
    if let StepSpec::Submit(l) = step {
        lemma_entry_index(entries, l@, entries.len() as int);
        let after = entries_after_step(entries, step);
        if let Some(i) = find_entry(entries, l@) {
            assert forall|k: int| 0 <= k < after.len() implies {
                &&& (#[trigger] after[k]).order_label@ == orders[k].label@
                &&& after[k].signer_label@ == order_signer(orders[k], multi)
            } by {
                assert(entries[k].order_label@ == orders[k].label@);
            }
        }
    }
}

/// In a plan that validation accepted, with its wallets authenticated and
/// its orders recorded, no step fails for want of an order id or a wallet:
/// every cancel and wait goes out, and a submit goes out exactly when its
/// order was not sent before (else it is refused as already submitted).
pub proof fn law_accepted_plan_dispatches(
    args: RaceArgs,
    entries: Seq<LedgerEntry>,
    setups: Seq<SignerSetup>,
    k: int,
)
    requires
        plan_outcome(args) is Ok,
        ledger_matches_orders(entries, args.orders@, is_multi_signer(args)),
        setups_cover_signers(setups, args),
        0 <= k < args.steps@.len(),
    ensures
        match args.steps@[k] {
            StepSpec::Submit(l) => {
                let i = find_entry(entries, l@)->0;
                &&& find_entry(entries, l@) is Some
                &&& !entries[i].submitted ==> step_outcome(entries, args.steps@[k], setups) is Ok
                &&& entries[i].submitted ==> step_outcome(entries, args.steps@[k], setups) == Err::<
                    RaceActionModel,
                    RunErrorModel,
                >(RunErrorModel::AlreadySubmitted(l@))
            },
            _ => step_outcome(entries, args.steps@[k], setups) is Ok,
        },
{
    law_accepted_plan_is_consistent(args);
    let orders = args.orders@;
    let multi = is_multi_signer(args);
    let step = args.steps@[k];
    assert(match step_order_label(step) {
        Some(l) => has_order_label(orders, l),
        None => true,
    });
    if let Some(l) = step_order_label(step) {
        let j = choose|j: int| 0 <= j < orders.len() && #[trigger] orders[j].label@ == l;
        assert(entries[j].order_label@ == l);
        lemma_entry_index(entries, l, entries.len() as int);
        let i = find_entry(entries, l)->0;
        assert(find_entry(entries, l) is Some);
        // The entry found is that of an order whose signer is authenticated.
        assert(entries[i].signer_label@ == order_signer(orders[i], multi));
        match orders[i].signer {
            Some(sig) => {
                if multi {
                    let m = choose|m: int|
                        0 <= m < args.signers@.len() && #[trigger] args.signers@[m].label@ == sig@;
                    assert(setup_has_label(setups, args.signers@[m].label@));
                }
            },
            None => {},
        }
        assert(setup_has_label(setups, entries[i].signer_label@));
    }
}

/// Recording every order of the plan in turn, from an empty ledger.
pub open spec fn recorded_all(orders: Seq<OrderSpec>, signers: Seq<String>, n: int) -> Seq<
    LedgerEntry,
>
    decreases n,
{
    if n <= 0 {
        Seq::empty()
    } else {
        recorded(recorded_all(orders, signers, n - 1), orders[n - 1].label, signers[n - 1])
    }
}

/// With distinct order labels, recording every order under its signer in
/// turn leaves one unsent entry per order, in plan order, each under that
/// order's signer.
pub proof fn law_recording_orders_matches_plan(
    orders: Seq<OrderSpec>,
    signers: Seq<String>,
    multi: bool,
    n: int,
)
    requires
        0 <= n <= orders.len(),
        signers.len() == orders.len(),
        forall|i: int|
            0 <= i < orders.len() ==> (#[trigger] signers[i])@ == order_signer(orders[i], multi),
        forall|i: int, j: int|
            0 <= i < j < orders.len() ==> #[trigger] orders[i].label@ != #[trigger] orders[j].label@,
    ensures
        ledger_matches_orders(recorded_all(orders, signers, n), orders.take(n), multi),
        forall|i: int|
            0 <= i < n ==> !(#[trigger] recorded_all(orders, signers, n)[i]).submitted,
    decreases n,
{
    if n > 0 {
        law_recording_orders_matches_plan(orders, signers, multi, n - 1);
        let prev = recorded_all(orders, signers, n - 1);
        let l = orders[n - 1].label;
        lemma_entry_index(prev, l@, prev.len() as int);
        assert(find_entry(prev, l@) is None) by {
            if let Some(i) = find_entry(prev, l@) {
                assert(prev[i].order_label@ == orders.take(n - 1)[i].label@);
                assert(orders[i].label@ != orders[n - 1].label@);
            }
        }
        let now = recorded_all(orders, signers, n);
        assert(now == prev.push(LedgerEntry { order_label: l, signer_label: signers[n - 1], submitted: false }));
        assert forall|i: int| 0 <= i < now.len() implies {
            &&& (#[trigger] now[i]).order_label@ == orders.take(n)[i].label@
            &&& now[i].signer_label@ == order_signer(orders.take(n)[i], multi)
        } by {
            if i < n - 1 {
                assert(now[i] == prev[i]);
                assert(orders.take(n - 1)[i] == orders.take(n)[i]);
            }
        }
    }
}

// ----- the specs -----

/// Splitting at every `c` and joining back with `c` gives the text back.
pub proof fn law_split_then_join(s: Seq<char>, c: char)
    ensures
        join_with(split_all(s, c), c) == s,
    decreases s.len(),
{
    lemma_first_index_upto(s, c, s.len() as int);
    match index_of(s, c) {
        Some(i) => {
            let rest = s.skip(i + 1);
            law_split_then_join(rest, c);
            let tail = split_all(rest, c);
            let parts = seq![s.take(i)] + tail;
            assert(split_all(s, c) == parts);
            assert(tail.len() >= 1) by {
                lemma_split_all_nonempty(rest, c);
            }
            assert(parts.drop_first() =~= tail);
            assert(s =~= s.take(i) + seq![c] + rest);
        },
        None => {},
    }
}

/// Splitting always gives at least one field.
pub proof fn lemma_split_all_nonempty(s: Seq<char>, c: char)
    ensures
        split_all(s, c).len() >= 1,
    decreases s.len(),
{
    lemma_first_index_upto(s, c, s.len() as int);
    if let Some(i) = index_of(s, c) {
        lemma_split_all_nonempty(s.skip(i + 1), c);
    }
}

/// Cutting at the first `c` loses nothing: the text is the part before,
/// `c`, and the part after; the part before holds no `c`.
pub proof fn law_split_once_parts(s: Seq<char>, c: char)
    requires
        split_once(s, c) is Some,
    ensures
        ({
            let (a, b) = split_once(s, c)->0;
            s == a + seq![c] + b && !a.contains(c)
        }),
{
    lemma_first_index_upto(s, c, s.len() as int);
    let i = index_of(s, c)->0;
    assert(s =~= s.take(i) + seq![c] + s.skip(i + 1));
    let a = s.take(i);
    assert(!a.contains(c)) by {
        if a.contains(c) {
            let j = choose|j: int| 0 <= j < a.len() && #[trigger] a[j] == c;
            assert(s[j] == c);
        }
    }
}

/// Cutting at the last `c` loses nothing: the text is the part before,
/// `c`, and the part after; the part after holds no `c`.
pub proof fn law_rsplit_once_parts(s: Seq<char>, c: char)
    requires
        rsplit_once(s, c) is Some,
    ensures
        ({
            let (a, b) = rsplit_once(s, c)->0;
            s == a + seq![c] + b && !b.contains(c)
        }),
{
    lemma_last_index_upto(s, c, s.len() as int);
    let i = crate::text::last_index_of(s, c)->0;
    assert(s =~= s.take(i) + seq![c] + s.skip(i + 1));
    let b = s.skip(i + 1);
    assert(!b.contains(c)) by {
        if b.contains(c) {
            let j = choose|j: int| 0 <= j < b.len() && #[trigger] b[j] == c;
            assert(s[i + 1 + j] == c);
        }
    }
}

/// No field that splitting at `c` gives holds a `c`.
pub proof fn lemma_split_all_fields(s: Seq<char>, c: char)
    ensures
        forall|k: int|
            0 <= k < split_all(s, c).len() ==> !(#[trigger] split_all(s, c)[k]).contains(c),
    decreases s.len(),
{
    lemma_first_index_upto(s, c, s.len() as int);
    match index_of(s, c) {
        Some(i) => {
            lemma_split_all_fields(s.skip(i + 1), c);
            let a = s.take(i);
            assert(!a.contains(c)) by {
                if a.contains(c) {
                    let j = choose|j: int| 0 <= j < a.len() && #[trigger] a[j] == c;
                    assert(s[j] == c);
                }
            }
            let parts = split_all(s, c);
            assert forall|k: int| 0 <= k < parts.len() implies !(#[trigger] parts[k]).contains(c) by {
                if k > 0 {
                    assert(parts[k] == split_all(s.skip(i + 1), c)[k - 1]);
                }
            }
        },
        None => {
            assert(!s.contains(c)) by {
                if s.contains(c) {
                    let j = choose|j: int| 0 <= j < s.len() && #[trigger] s[j] == c;
                }
            }
        },
    }
}

/// A signer spec is read without losing anything: it is the label, `=`,
/// the key, and `:` with the signature type when one was recognised.
pub proof fn law_signer_spec_round_trip(s: Seq<char>)
    requires
        signer_spec_outcome(s) is Ok,
    ensures
        ({
            let m = signer_spec_outcome(s)->Ok_0;
            s == m.label + seq!['='] + m.private_key + match m.signature_type {
                Some(t) => seq![':'] + t,
                None => Seq::<char>::empty(),
            }
        }),
{
    law_split_once_parts(s, '=');
    let (label, rest) = split_once(s, '=')->0;
    let m = signer_spec_outcome(s)->Ok_0;
    if let Some(t) = m.signature_type {
        law_rsplit_once_parts(rest, ':');
        assert(rest == m.private_key + seq![':'] + t);
        assert(s =~= m.label + seq!['='] + m.private_key + (seq![':'] + t));
    } else {
        assert(s =~= m.label + seq!['='] + m.private_key + Seq::<char>::empty());
    }
}

/// The parts of an accepted order spec: the label holds no `=`; the token,
/// price and size hold no `:`; a signer, when present, is non-empty and
/// holds no `@`.
pub proof fn law_order_spec_fields(s: Seq<char>)
    requires
        order_spec_outcome(s) is Ok,
    ensures
        ({
            let m = order_spec_outcome(s)->Ok_0;
            &&& !m.label.contains('=')
            &&& !m.token.contains(':')
            &&& !m.price.contains(':')
            &&& !m.size.contains(':')
            &&& m.signer matches Some(sig) ==> sig.len() > 0 && !sig.contains('@')
        }),
{
    law_split_once_parts(s, '=');
    let (label, rest) = split_once(s, '=')->0;
    let (body, signer) = order_body_and_signer(rest);
    lemma_split_all_fields(body, ':');
    let parts = split_all(body, ':');
    assert(!parts[0].contains(':'));
    assert(!parts[2].contains(':'));
    assert(!parts[3].contains(':'));
    if let Some(sig) = signer {
        law_rsplit_once_parts(rest, '@');
    }
}

/// Two texts that agree up to ASCII letter case.
pub open spec fn same_ignoring_ascii_case(a: Seq<char>, b: Seq<char>) -> bool {
    a.len() == b.len() && forall|i: int|
        0 <= i < a.len() ==> #[trigger] ascii_lower_char(a[i]) == ascii_lower_char(b[i])
}

/// ASCII text that agrees with another up to ASCII letter case has the same
/// ASCII lowercase and uppercase forms, and the other text is ASCII too.
pub proof fn lemma_same_ignoring_ascii_case(a: Seq<char>, b: Seq<char>)
    requires
        is_ascii_chars(a),
        same_ignoring_ascii_case(a, b),
    ensures
        is_ascii_chars(b),
        ascii_lowercase(a) == ascii_lowercase(b),
        ascii_uppercase(a) == ascii_uppercase(b),
{
    assert forall|i: int| 0 <= i < b.len() implies '\0' <= #[trigger] b[i] <= '\u{7f}' by {
        assert(ascii_lower_char(a[i]) == ascii_lower_char(b[i]));
    }
    assert(ascii_lowercase(a) =~= ascii_lowercase(b)) by {
        assert forall|i: int| 0 <= i < a.len() implies ascii_lowercase(a)[i] == ascii_lowercase(
            b,
        )[i] by {
            assert(ascii_lower_char(a[i]) == ascii_lower_char(b[i]));
        }
    }
    assert(ascii_uppercase(a) =~= ascii_uppercase(b)) by {
        assert forall|i: int| 0 <= i < a.len() implies ascii_uppercase(a)[i] == ascii_uppercase(
            b,
        )[i] by {
            assert(ascii_lower_char(a[i]) == ascii_lower_char(b[i]));
            assert('\0' <= a[i] <= '\u{7f}');
            assert('\0' <= b[i] <= '\u{7f}');
        }
    }
}

/// The label, the colon-separated fields of the body, and the signer of an
/// order spec, as the parser cuts them.
pub open spec fn order_spec_pieces(s: Seq<char>) -> Option<
    (Seq<char>, Seq<Seq<char>>, Option<Seq<char>>),
> {
    match split_once(s, '=') {
        None => None,
        Some((label, rest)) => {
            let (body, signer) = order_body_and_signer(rest);
            Some((label, split_all(body, ':'), signer))
        },
    }
}

/// The letter case of an order's side field and type field does not matter:
/// two specs cut into the same label, signer and other fields, whose side
/// and type fields agree up to ASCII letter case (and are ASCII), read alike,
/// errors included.
pub proof fn law_order_spec_ignores_case_of_side_and_type(s: Seq<char>, s2: Seq<char>)
    requires
        order_spec_pieces(s) is Some,
        order_spec_pieces(s2) is Some,
        ({
            let (label, parts, signer) = order_spec_pieces(s)->0;
            let (label2, parts2, signer2) = order_spec_pieces(s2)->0;
            &&& label2 == label
            &&& signer2 == signer
            &&& parts2.len() == parts.len()
            &&& forall|k: int|
                0 <= k < parts.len() && k != 1 && k != 4 ==> #[trigger] parts2[k] == parts[k]
            &&& parts.len() > 1 ==> is_ascii_chars(parts[1]) && same_ignoring_ascii_case(
                parts[1],
                parts2[1],
            )
            &&& parts.len() > 4 ==> is_ascii_chars(parts[4]) && same_ignoring_ascii_case(
                parts[4],
                parts2[4],
            )
        }),
    ensures
        order_spec_outcome(s2) == order_spec_outcome(s),
{
    let (label, parts, signer) = order_spec_pieces(s)->0;
    let (label2, parts2, signer2) = order_spec_pieces(s2)->0;
    if parts.len() > 1 {
        lemma_same_ignoring_ascii_case(parts[1], parts2[1]);
    }
    if parts.len() > 4 {
        lemma_same_ignoring_ascii_case(parts[4], parts2[4]);
    }
    if 4 <= parts.len() <= 5 {
        assert(parts2[0] == parts[0]);
        assert(parts2[2] == parts[2]);
        assert(parts2[3] == parts[3]);
    }
}

/// The letter case of a step's kind does not matter: two steps with the same
/// argument whose kinds agree up to ASCII letter case (and are ASCII) read
/// alike, errors included.
pub proof fn law_step_spec_ignores_case_of_kind(s: Seq<char>, s2: Seq<char>)
    requires
        split_once(s, ':') is Some,
        split_once(s2, ':') is Some,
        ({
            let (kind, arg) = split_once(s, ':')->0;
            let (kind2, arg2) = split_once(s2, ':')->0;
            &&& arg2 == arg
            &&& is_ascii_chars(kind)
            &&& same_ignoring_ascii_case(kind, kind2)
        }),
    ensures
        step_spec_outcome(s2) == step_spec_outcome(s),
{
    let (kind, arg) = split_once(s, ':')->0;
    let (kind2, arg2) = split_once(s2, ':')->0;
    lemma_same_ignoring_ascii_case(kind, kind2);
}

// ----- what each operation is for -----

/// The text of an order body once a trailing `@SIGNER` is cut off: what
/// precedes the last `@` when a non-empty signer follows it, else all of it.
pub open spec fn text_before_signer(rest: Seq<char>) -> Seq<char> {
    match rsplit_once(rest, '@') {
        Some((before, sig)) => if sig.len() > 0 {
            before
        } else {
            rest
        },
        None => rest,
    }
}

/// The non-empty text after the last `@` of an order body, if any.
pub open spec fn signer_after_at(rest: Seq<char>) -> Option<Seq<char>> {
    match rsplit_once(rest, '@') {
        Some((before, sig)) => if sig.len() > 0 {
            Some(sig)
        } else {
            None
        },
        None => None,
    }
}

/// An accepted order spec is read from its text field by field: the label
/// is what precedes the first `=`; the signer is a non-empty text after the
/// last `@`; the rest splits at `:` into 4 or 5 fields: token, side, price,
/// size and type. The side is fixed by the side field alone (`buy` or `sell`
/// once lowercased), whatever the signer; the type by the type field alone
/// (`GTC` where there is none) once uppercased.
pub proof fn law_order_spec_reads_its_fields(s: Seq<char>)
    requires
        order_spec_outcome(s) is Ok,
    ensures
        ({
            let m = order_spec_outcome(s)->Ok_0;
            let (label, rest) = split_once(s, '=')->0;
            let parts = split_all(text_before_signer(rest), ':');
            let type_field = if parts.len() == 5 {
                parts[4]
            } else {
                "GTC"@
            };
            &&& split_once(s, '=') is Some
            &&& m.label == label
            &&& m.signer == signer_after_at(rest)
            &&& 4 <= parts.len() <= 5
            &&& m.token == parts[0]
            &&& m.price == parts[2]
            &&& m.size == parts[3]
            &&& (m.side == CliSide::Buy <==> lowercased(parts[1]) == "buy"@)
            &&& (m.side == CliSide::Sell <==> lowercased(parts[1]) == "sell"@)
            &&& (m.order_type == CliOrderType::Gtc <==> uppercased(type_field) == "GTC"@)
            &&& (m.order_type == CliOrderType::Fok <==> uppercased(type_field) == "FOK"@)
            &&& (m.order_type == CliOrderType::Gtd <==> uppercased(type_field) == "GTD"@)
            &&& (m.order_type == CliOrderType::Fak <==> uppercased(type_field) == "FAK"@)
        }),
{
    let (label, rest) = split_once(s, '=')->0;
    assert(order_body_and_signer(rest) == (text_before_signer(rest), signer_after_at(rest)));
    reveal_strlit("buy");
    reveal_strlit("sell");
    reveal_strlit("GTC");
    reveal_strlit("FOK");
    reveal_strlit("GTD");
    reveal_strlit("FAK");
    assert("buy"@.len() != "sell"@.len());
    assert("GTC"@[0] != "FOK"@[0] && "GTC"@[0] != "FAK"@[0] && "FOK"@[0] != "GTD"@[0]);
    assert("GTC"@[2] != "GTD"@[2] && "FOK"@[1] != "FAK"@[1] && "GTD"@[0] != "FAK"@[0]);
}

/// A signer spec's last `:`-field is its signature type exactly when it
/// names one (`proxy`, `eoa` or `gnosis-safe`, in any letter case): then the
/// key is what precedes it, however long; otherwise the key is the whole
/// text after the first `=` and there is no signature type.
pub proof fn law_signer_spec_takes_known_type_suffix(s: Seq<char>)
    requires
        signer_spec_outcome(s) is Ok,
    ensures
        ({
            let m = signer_spec_outcome(s)->Ok_0;
            let (label, rest) = split_once(s, '=')->0;
            &&& split_once(s, '=') is Some
            &&& m.label == label
            &&& match rsplit_once(rest, ':') {
                Some((key, t)) => {
                    let lt = lowercased(t);
                    if lt == "proxy"@ || lt == "eoa"@ || lt == "gnosis-safe"@ {
                        m.private_key == key && m.signature_type == Some(t)
                    } else {
                        m.private_key == rest && m.signature_type is None
                    }
                },
                None => m.private_key == rest && m.signature_type is None,
            }
        }),
{
}

/// A step keeps its argument as written: a submit or cancel step names the
/// order by the exact text after the first `:` (letter case included), and a
/// wait lasts the milliseconds that text denotes. Conversely every text
/// whose kind reads `submit`, `cancel` or `wait` gives that step.
pub proof fn law_step_spec_keeps_its_argument(s: Seq<char>)
    ensures
        step_spec_outcome(s) matches Ok(StepSpecModel::Submit(l)) ==> (split_once(s, ':') matches Some(
            (k, a),
        ) && l == a && lowercased(k) == "submit"@),
        step_spec_outcome(s) matches Ok(StepSpecModel::Cancel(l)) ==> (split_once(s, ':') matches Some(
            (k, a),
        ) && l == a && lowercased(k) == "cancel"@),
        step_spec_outcome(s) matches Ok(StepSpecModel::Wait(ms)) ==> (split_once(s, ':') matches Some(
            (k, a),
        ) && u64_from_decimal(a) == Some(ms) && lowercased(k) == "wait"@),
        split_once(s, ':') matches Some((kind, arg)) ==> {
            &&& lowercased(kind) == "submit"@ ==> (step_spec_outcome(s) matches Ok(
                StepSpecModel::Submit(l),
            ) && l == arg)
            &&& lowercased(kind) == "cancel"@ ==> (step_spec_outcome(s) matches Ok(
                StepSpecModel::Cancel(l),
            ) && l == arg)
            &&& (lowercased(kind) == "wait"@ && u64_from_decimal(arg) is Some) ==> (
            step_spec_outcome(s) matches Ok(StepSpecModel::Wait(ms)) && Some(ms)
                == u64_from_decimal(arg))
        },
{
    reveal_strlit("submit");
    reveal_strlit("cancel");
    reveal_strlit("wait");
    assert("submit"@[0] != "cancel"@[0] && "submit"@[0] != "wait"@[0] && "cancel"@[0] != "wait"@[0]);
}

/// A wait step goes out with exactly the milliseconds it names, whatever
/// the ledger and the wallets, and leaves the ledger as it was.
pub proof fn law_wait_lasts_what_it_names(
    entries: Seq<LedgerEntry>,
    ms: u64,
    setups: Seq<SignerSetup>,
)
    ensures
        step_outcome(entries, StepSpec::Wait(ms), setups) matches Ok(RaceActionModel::Wait(m))
            && m == ms,
        entries_after_step(entries, StepSpec::Wait(ms)) == entries,
{
}

proof fn lemma_no_duplicate_order_found(orders: Seq<OrderSpec>, n: int)
    requires
        n <= orders.len(),
        forall|j: int| 0 <= j < n ==> !#[trigger] order_label_seen_before(orders, j),
    ensures
        first_duplicate_order(orders, n) is None,
    decreases n,
{
    if n > 0 {
        lemma_no_duplicate_order_found(orders, n - 1);
        assert(!order_label_seen_before(orders, n - 1));
    }
}

proof fn lemma_no_duplicate_signer_found(signers: Seq<SignerSpec>, n: int)
    requires
        n <= signers.len(),
        forall|j: int| 0 <= j < n ==> !#[trigger] signer_label_seen_before(signers, j),
    ensures
        first_duplicate_signer(signers, n) is None,
    decreases n,
{
    if n > 0 {
        lemma_no_duplicate_signer_found(signers, n - 1);
        assert(!signer_label_seen_before(signers, n - 1));
    }
}

proof fn lemma_no_unknown_step_found(steps: Seq<StepSpec>, orders: Seq<OrderSpec>, n: int)
    requires
        n <= steps.len(),
        forall|k: int| 0 <= k < n ==> !#[trigger] step_refers_to_unknown(steps, orders, k),
    ensures
        first_unknown_step(steps, orders, n) is None,
    decreases n,
{
    if n > 0 {
        lemma_no_unknown_step_found(steps, orders, n - 1);
        assert(!step_refers_to_unknown(steps, orders, n - 1));
    }
}

proof fn lemma_no_bad_order_signer_found(
    orders: Seq<OrderSpec>,
    multi: bool,
    signers: Seq<SignerSpec>,
    n: int,
)
    requires
        n <= orders.len(),
        forall|j: int| 0 <= j < n ==> #[trigger] order_signer_ok(orders[j], multi, signers),
    ensures
        first_bad_order_signer(orders, multi, signers, n) is None,
    decreases n,
{
    if n > 0 {
        lemma_no_bad_order_signer_found(orders, multi, signers, n - 1);
        assert(order_signer_ok(orders[n - 1], multi, signers));
    }
}

/// Plan validation accepts every sound plan: with orders and steps, distinct
/// order labels, steps naming existing orders, distinct signer labels, and
/// every order naming a defined signer when signers are given (any number
/// of orders may share one) and none when not, the plan is accepted, in
/// multi-signer mode exactly when signers are given.
pub proof fn law_sound_plan_is_accepted(args: RaceArgs)
    requires
        args.orders@.len() > 0,
        args.steps@.len() > 0,
        forall|i: int, j: int|
            0 <= i < j < args.orders@.len() ==> #[trigger] args.orders@[i].label@
                != #[trigger] args.orders@[j].label@,
        forall|i: int, j: int|
            0 <= i < j < args.signers@.len() ==> #[trigger] args.signers@[i].label@
                != #[trigger] args.signers@[j].label@,
        forall|k: int|
            0 <= k < args.steps@.len() ==> match #[trigger] args.steps@[k] {
                StepSpec::Submit(l) => exists|i: int|
                    0 <= i < args.orders@.len() && #[trigger] args.orders@[i].label@ == l@,
                StepSpec::Cancel(l) => exists|i: int|
                    0 <= i < args.orders@.len() && #[trigger] args.orders@[i].label@ == l@,
                StepSpec::Wait(_) => true,
            },
        forall|j: int|
            0 <= j < args.orders@.len() ==> match (#[trigger] args.orders@[j]).signer {
                Some(sig) => args.signers@.len() > 0 && exists|i: int|
                    0 <= i < args.signers@.len() && #[trigger] args.signers@[i].label@ == sig@,
                None => args.signers@.len() == 0,
            },
    ensures
        plan_outcome(args) == Ok::<bool, PlanErrorModel>(args.signers@.len() > 0),
{
    let orders = args.orders@;
    let steps = args.steps@;
    let signers = args.signers@;
    let multi = is_multi_signer(args);
    assert forall|j: int| 0 <= j < orders.len() implies !#[trigger] order_label_seen_before(
        orders,
        j,
    ) by {
        if order_label_seen_before(orders, j) {
            let i = choose|i: int| 0 <= i < j && #[trigger] orders[i].label@ == orders[j].label@;
            assert(orders[i].label@ != orders[j].label@);
        }
    }
    lemma_no_duplicate_order_found(orders, orders.len() as int);
    assert forall|k: int| 0 <= k < steps.len() implies !#[trigger] step_refers_to_unknown(
        steps,
        orders,
        k,
    ) by {
        match steps[k] {
            StepSpec::Submit(l) => {
                let i = choose|i: int| 0 <= i < orders.len() && #[trigger] orders[i].label@ == l@;
                assert(has_order_label(orders, l@));
            },
            StepSpec::Cancel(l) => {
                let i = choose|i: int| 0 <= i < orders.len() && #[trigger] orders[i].label@ == l@;
                assert(has_order_label(orders, l@));
            },
            StepSpec::Wait(_) => {},
        }
    }
    lemma_no_unknown_step_found(steps, orders, steps.len() as int);
    assert forall|j: int| 0 <= j < signers.len() implies !#[trigger] signer_label_seen_before(
        signers,
        j,
    ) by {
        if signer_label_seen_before(signers, j) {
            let i = choose|i: int| 0 <= i < j && #[trigger] signers[i].label@ == signers[j].label@;
            assert(signers[i].label@ != signers[j].label@);
        }
    }
    lemma_no_duplicate_signer_found(signers, signers.len() as int);
    assert forall|j: int| 0 <= j < orders.len() implies #[trigger] order_signer_ok(
        orders[j],
        multi,
        signers,
    ) by {
        match orders[j].signer {
            Some(sig) => {
                let i = choose|i: int| 0 <= i < signers.len() && #[trigger] signers[i].label@ == sig@;
                assert(has_signer_label(signers, sig@));
            },
            None => {},
        }
    }
    lemma_no_bad_order_signer_found(orders, multi, signers, orders.len() as int);
}

/// When an order spec is refused, and why: no `=` at all; a body that does
/// not split into 4 or 5 fields; a side field that is neither `buy` nor
/// `sell` once lowercased (reported lowercased); a type field that is none
/// of `GTC`, `FOK`, `GTD`, `FAK` once uppercased (reported uppercased).
pub proof fn law_order_spec_refusals(s: Seq<char>)
    ensures
        split_once(s, '=') is None ==> order_spec_outcome(s) == Err::<
            crate::race::OrderSpecModel,
            OrderSpecErrorModel,
        >(OrderSpecErrorModel::MissingEquals),
        split_once(s, '=') matches Some((label, rest)) ==> {
            let parts = split_all(text_before_signer(rest), ':');
            let side = lowercased(parts[1]);
            let kind = uppercased(
                if parts.len() == 5 {
                    parts[4]
                } else {
                    "GTC"@
                },
            );
            &&& (parts.len() < 4 || parts.len() > 5) ==> order_spec_outcome(s) == Err::<
                crate::race::OrderSpecModel,
                OrderSpecErrorModel,
            >(OrderSpecErrorModel::FieldCount)
            &&& (4 <= parts.len() <= 5 && side != "buy"@ && side != "sell"@)
                ==> order_spec_outcome(s) == Err::<crate::race::OrderSpecModel, OrderSpecErrorModel>(
                OrderSpecErrorModel::UnknownSide(side),
            )
            &&& (4 <= parts.len() <= 5 && (side == "buy"@ || side == "sell"@) && kind != "GTC"@
                && kind != "FOK"@ && kind != "GTD"@ && kind != "FAK"@) ==> order_spec_outcome(s)
                == Err::<crate::race::OrderSpecModel, OrderSpecErrorModel>(
                OrderSpecErrorModel::UnknownOrderType(kind),
            )
        },
{
    if let Some((label, rest)) = split_once(s, '=') {
        assert(order_body_and_signer(rest) == (text_before_signer(rest), signer_after_at(rest)));
    }
}

/// When a signer spec is refused, and why: no `=`; an empty label; the
/// reserved default label. Every other signer spec is accepted.
pub proof fn law_signer_spec_refusals(s: Seq<char>)
    ensures
        split_once(s, '=') is None ==> signer_spec_outcome(s) == Err::<
            crate::race::SignerSpecModel,
            SignerSpecError,
        >(SignerSpecError::MissingEquals),
        split_once(s, '=') matches Some((label, rest)) ==> {
            &&& label.len() == 0 ==> signer_spec_outcome(s) == Err::<
                crate::race::SignerSpecModel,
                SignerSpecError,
            >(SignerSpecError::EmptyLabel)
            &&& (label.len() > 0 && label == DEFAULT_SIGNER_LABEL@) ==> signer_spec_outcome(s)
                == Err::<crate::race::SignerSpecModel, SignerSpecError>(
                SignerSpecError::ReservedLabel,
            )
            &&& (label.len() > 0 && label != DEFAULT_SIGNER_LABEL@) ==> signer_spec_outcome(s) is Ok
        },
{
}

/// When a step spec is refused, and why: no `:`; a kind that is none of
/// `submit`, `cancel`, `wait` once lowercased (reported lowercased); a wait
/// whose argument is not a decimal `u64` (reported as written).
pub proof fn law_step_spec_refusals(s: Seq<char>)
    ensures
        split_once(s, ':') is None ==> step_spec_outcome(s) == Err::<
            StepSpecModel,
            StepSpecErrorModel,
        >(StepSpecErrorModel::MissingColon),
        split_once(s, ':') matches Some((kind, arg)) ==> {
            let k = lowercased(kind);
            &&& (k != "submit"@ && k != "cancel"@ && k != "wait"@) ==> step_spec_outcome(s)
                == Err::<StepSpecModel, StepSpecErrorModel>(StepSpecErrorModel::UnknownKind(k))
            &&& (k == "wait"@ && u64_from_decimal(arg) is None) ==> step_spec_outcome(s) == Err::<
                StepSpecModel,
                StepSpecErrorModel,
            >(StepSpecErrorModel::InvalidWait(arg))
        },
{
    reveal_strlit("submit");
    reveal_strlit("cancel");
    reveal_strlit("wait");
    assert("submit"@[0] != "cancel"@[0] && "submit"@[0] != "wait"@[0] && "cancel"@[0] != "wait"@[0]);
}

/// A dispatched submit or cancel names the step's own order and goes
/// through the signer that order was recorded with, which is authenticated;
/// a submit only sends an order not sent before.
pub proof fn law_dispatch_uses_the_orders_signer(
    entries: Seq<LedgerEntry>,
    step: StepSpec,
    setups: Seq<SignerSetup>,
)
    ensures
        step_outcome(entries, step, setups) matches Ok(
            RaceActionModel::Submit { label, signer_label },
        ) ==> (step matches StepSpec::Submit(l) && label == l@ && exists|i: int|
            0 <= i < entries.len() && (#[trigger] entries[i]).order_label@ == l@
                && entries[i].signer_label@ == signer_label && !entries[i].submitted
                && setup_has_label(setups, signer_label)),
        step_outcome(entries, step, setups) matches Ok(
            RaceActionModel::Cancel { label, signer_label },
        ) ==> (step matches StepSpec::Cancel(l) && label == l@ && exists|i: int|
            0 <= i < entries.len() && (#[trigger] entries[i]).order_label@ == l@
                && entries[i].signer_label@ == signer_label && setup_has_label(
                setups,
                signer_label,
            )),
{
    match step {
        StepSpec::Submit(l) => {
            lemma_entry_index(entries, l@, entries.len() as int);
        },
        StepSpec::Cancel(l) => {
            lemma_entry_index(entries, l@, entries.len() as int);
        },
        StepSpec::Wait(_) => {},
    }
}

/// Recording an order leaves exactly one entry for it, unsent, under the
/// given signer, and keeps every other order's entry where it was.
pub proof fn law_record_order_keeps_one_entry(entries: Seq<LedgerEntry>, l: String, signer: String)
    requires
        labels_distinct(entries),
    ensures
        ({
            let after = recorded(entries, l, signer);
            &&& labels_distinct(after)
            &&& after.len() >= entries.len()
            &&& find_entry(after, l@) matches Some(i) && after[i].order_label@ == l@
                && after[i].signer_label == signer && !after[i].submitted
            &&& forall|k: int|
                0 <= k < entries.len() && (#[trigger] entries[k]).order_label@ != l@ ==> after[k]
                    == entries[k]
        }),
{
    let after = recorded(entries, l, signer);
    lemma_entry_index(entries, l@, entries.len() as int);
    lemma_entry_index(after, l@, after.len() as int);
    assert forall|a: int, b: int| 0 <= a < b < after.len() implies #[trigger] after[a].order_label@
        != #[trigger] after[b].order_label@ by {
        if find_entry(entries, l@) is None && b == entries.len() {
            assert(entries[a].order_label@ != l@);
        } else {
            assert(entries[a].order_label@ != entries[b].order_label@);
        }
    }
    if let Some(i) = find_entry(after, l@) {
        if find_entry(entries, l@) is None {
            assert(after[entries.len() as int].order_label@ == l@);
        } else {
            let j = find_entry(entries, l@)->0;
            assert(after[j].order_label@ == l@);
        }
    } else {
        if find_entry(entries, l@) is None {
            assert(after[entries.len() as int].order_label@ == l@);
        } else {
            let j = find_entry(entries, l@)->0;
            assert(after[j].order_label@ == l@);
        }
    }
}

} // verus!
