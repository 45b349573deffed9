//! The reconciliation engine for certificates: planning one action per
//! declared item, classifying the service's mutation responses, and
//! aggregating per-item outcomes into buckets and a final exit status.
//!
//! The engine is pure: the caller fetches the remote state, performs the
//! planned HTTP calls in declaration order, and hands the responses back
//! as plain values. A response outside the known error schema aborts the
//! whole run; a schema-conformant rejection fails only its own item.

use vstd::prelude::*;
use crate::certmeta::{cert_is_valid, spec_cert_is_valid, CertMeta};
use crate::matcher::{cert_matches, find_existing_by_id_or_name, lemma_find_cert_first,
    spec_find_cert};
use crate::models::Certificate;
use crate::strutil::str_eq;

verus! {

/// One declared certificate, after preflight: its identity and the
/// metadata read from its artifact.
pub struct CertDesired {
    pub name: String,
    pub id: Option<i64>,
    pub meta: CertMeta,
}

/// What the plan holds for one declared item. `Failure` marks a locally
/// invalid certificate: it is recorded as failed and triggers no call.
#[derive(Clone, Copy, Debug, PartialEq, Eq, Structural)]
pub enum PlannedAction {
    Failure,
    Skip,
    Create,
    Update,
}

/// The plan for one declared item: its action, and the matched remote
/// record's id where one was found.
#[derive(Clone, Copy, Debug, PartialEq, Eq, Structural)]
pub struct CertPlan {
    pub action: PlannedAction,
    pub existing_id: Option<i64>,
}

/// The plan for one declared certificate. An invalid certificate fails
/// outright; an unmatched one is created; a matched one is updated when
/// the serial numbers differ and skipped when they agree.
pub open spec fn spec_plan_one(d: CertDesired, existing: Seq<Certificate>, now: int) -> CertPlan {
    if !spec_cert_is_valid(d.meta.not_before as int, d.meta.not_after as int, now) {
        CertPlan { action: PlannedAction::Failure, existing_id: Option::None }
    } else {
        match spec_find_cert(existing, d.id, d.name@) {
            Option::None => CertPlan { action: PlannedAction::Create, existing_id: Option::None },
            Option::Some(i) => if existing[i].serial_number@ != d.meta.serial_dec@ {
                CertPlan {
                    action: PlannedAction::Update,
                    existing_id: Option::Some(existing[i].id),
                }
            } else {
                CertPlan { action: PlannedAction::Skip, existing_id: Option::Some(existing[i].id) }
            },
        }
    }
}

/// Plans the whole run: one action per declared certificate, in
/// declaration order, against the remote state as fetched and the current
/// time.
pub fn plan_certificates(declared: &Vec<CertDesired>, existing: &Vec<Certificate>, now: i64) -> (r:
    Vec<CertPlan>)
    ensures
        r@.len() == declared@.len(),
        forall|i: int|
            0 <= i < declared@.len() ==> r@[i] == spec_plan_one(
                declared@[i],
                existing@,
                now as int,
            ),
{
    let mut out: Vec<CertPlan> = Vec::new();
    let n = declared.len();
    let mut i: usize = 0;
    while i < n
        invariant
            i <= n,
            n == declared@.len(),
            out@.len() == i,
            forall|k: int|
                0 <= k < i ==> out@[k] == spec_plan_one(declared@[k], existing@, now as int),
        decreases n - i,
    {
        let d = &declared[i];
        let plan: CertPlan = if !cert_is_valid(&d.meta, now) {
            CertPlan { action: PlannedAction::Failure, existing_id: None }
        } else {
            match find_existing_by_id_or_name(existing, d.id, d.name.as_str()) {
                Option::None => {
                    proof {
                        lemma_find_cert_first(existing@, d.id, d.name@);
                    }
                    CertPlan { action: PlannedAction::Create, existing_id: None }
                },
                Option::Some(j) => {
                    proof {
                        lemma_find_cert_first(existing@, d.id, d.name@);
                        assert(spec_find_cert(existing@, d.id, d.name@) == Option::Some(j as int));
                    }
                    if str_eq(existing[j].serial_number.as_str(), d.meta.serial_dec.as_str()) {
                        CertPlan { action: PlannedAction::Skip, existing_id: Some(existing[j].id) }
                    } else {
                        CertPlan {
                            action: PlannedAction::Update,
                            existing_id: Some(existing[j].id),
                        }
                    }
                },
            }
        };
        out.push(plan);
        i = i + 1;
    }
    out
}

/// How many mutation calls a plan asks for: one per create and one per
/// update; failed and skipped items trigger none.
pub open spec fn spec_needs_call(a: PlannedAction) -> bool {
    a == PlannedAction::Create || a == PlannedAction::Update
}

/// The number of mutation calls the plan asks for.
pub open spec fn spec_call_count(plan: Seq<CertPlan>) -> int
    decreases plan.len(),
{
    if plan.len() == 0 {
        0
    } else {
        (if spec_needs_call(plan.first().action) {
            1int
        } else {
            0int
        }) + spec_call_count(plan.drop_first())
    }
}

/// No mutation call is ever planned for a skipped or failed item, so a
/// plan of skips alone asks for zero calls.
pub proof fn lemma_no_calls_without_mutation(plan: Seq<CertPlan>)
    requires
        forall|i: int|
            0 <= i < plan.len() ==> plan[i].action == PlannedAction::Skip || plan[i].action
                == PlannedAction::Failure,
    ensures
        spec_call_count(plan) == 0,
    decreases plan.len(),
{
    if plan.len() > 0 {
        assert(plan.first() == plan[0]);
        assert(forall|i: int| 0 <= i < plan.len() - 1 ==> plan.drop_first()[i] == plan[i + 1]);
        lemma_no_calls_without_mutation(plan.drop_first());
    }
}

/// When every declared certificate is valid, matches a remote record and
/// carries the remote record's fingerprint, the plan is all skips and the
/// run makes no mutation call at all.
pub proof fn lemma_all_fingerprints_equal_all_skip(
    declared: Seq<CertDesired>,
    existing: Seq<Certificate>,
    now: int,
)
    requires
        forall|i: int|
            0 <= i < declared.len() ==> spec_cert_is_valid(
                declared[i].meta.not_before as int,
                declared[i].meta.not_after as int,
                now,
            ),
        forall|i: int|
            0 <= i < declared.len() ==> ((#[trigger] spec_find_cert(
                existing,
                declared[i].id,
                declared[i].name@,
            )) matches Some(j) && existing[j].serial_number@ == declared[i].meta.serial_dec@),
    ensures
        forall|i: int|
            0 <= i < declared.len() ==> (#[trigger] spec_plan_one(
                declared[i],
                existing,
                now,
            )).action == PlannedAction::Skip,
        spec_call_count(
            Seq::new(declared.len(), |i: int| spec_plan_one(declared[i], existing, now)),
        ) == 0,
{
    let plan = Seq::new(declared.len(), |i: int| spec_plan_one(declared[i], existing, now));
    assert forall|i: int| 0 <= i < plan.len() implies plan[i].action == PlannedAction::Skip
        || plan[i].action == PlannedAction::Failure by {
        assert(spec_plan_one(declared[i], existing, now).action == PlannedAction::Skip);
    }
    lemma_no_calls_without_mutation(plan);
}

/// One mutation response, reduced to plain values: the HTTP status, and
/// whether the body parsed into the known error schema.
#[derive(Clone, Copy, Debug, PartialEq, Eq, Structural)]
pub struct MutationResponse {
    pub status: u16,
    pub structured_error: bool,
}

/// What one mutation came to.
#[derive(Clone, Copy, Debug, PartialEq, Eq, Structural)]
pub enum MutationOutcome {
    /// The expected success status came back.
    Succeeded,
    /// A non-success status with a schema-conformant error body: the item
    /// is recorded as failed and the run goes on.
    Rejected,
    /// A non-success status whose body matches no known schema: the
    /// service's contract changed underneath the client, and the whole
    /// run aborts.
    Fatal,
}

/// The success status each action expects: 201 for a create, 200 for an
/// update.
pub open spec fn spec_expected_status(a: PlannedAction) -> u16 {
    if a == PlannedAction::Create {
        201
    } else {
        200
    }
}

/// How a mutation response is classified against the expected success
/// status.
pub open spec fn spec_classify(expected: u16, r: MutationResponse) -> MutationOutcome {
    if r.status == expected {
        MutationOutcome::Succeeded
    } else if r.structured_error {
        MutationOutcome::Rejected
    } else {
        MutationOutcome::Fatal
    }
}

/// Classifies one mutation response: the expected status succeeds, a
/// structured error is a per-item failure, anything else is fatal.
pub fn classify_mutation_response(expected: u16, r: &MutationResponse) -> (o: MutationOutcome)
    ensures
        o == spec_classify(expected, *r),
{
    if r.status == expected {
        MutationOutcome::Succeeded
    } else if r.structured_error {
        MutationOutcome::Rejected
    } else {
        MutationOutcome::Fatal
    }
}

/// What one declared item came to at the end of the run.
#[derive(Clone, Copy, Debug, PartialEq, Eq, Structural)]
pub enum ItemResult {
    Created,
    Updated,
    Skipped,
    Failed,
}

/// The per-item results of the run, in declaration order: planned skips
/// and failures stand as they are; creates and updates take the next
/// response each, succeeding on the expected status and failing on a
/// structured rejection. (A fatal response aborts the run instead; see
/// `spec_run_fatal`.)
pub open spec fn spec_results(plan: Seq<CertPlan>, resps: Seq<MutationResponse>) -> Seq<ItemResult>
    decreases plan.len(),
{
    if plan.len() == 0 {
        Seq::empty()
    } else {
        let a = plan.first().action;
        if a == PlannedAction::Failure {
            seq![ItemResult::Failed] + spec_results(plan.drop_first(), resps)
        } else if a == PlannedAction::Skip {
            seq![ItemResult::Skipped] + spec_results(plan.drop_first(), resps)
        } else {
            let o = spec_classify(spec_expected_status(a), resps.first());
            let here = if o == MutationOutcome::Succeeded {
                if a == PlannedAction::Create {
                    ItemResult::Created
                } else {
                    ItemResult::Updated
                }
            } else {
                ItemResult::Failed
            };
            seq![here] + spec_results(plan.drop_first(), resps.drop_first())
        }
    }
}

/// Whether the run hits a fatal response: some create or update is
/// answered with a status that is neither the expected one nor a
/// schema-conformant error.
pub open spec fn spec_run_fatal(plan: Seq<CertPlan>, resps: Seq<MutationResponse>) -> bool
    decreases plan.len(),
{
    if plan.len() == 0 {
        false
    } else {
        let a = plan.first().action;
        if !spec_needs_call(a) {
            spec_run_fatal(plan.drop_first(), resps)
        } else {
            spec_classify(spec_expected_status(a), resps.first()) == MutationOutcome::Fatal
                || spec_run_fatal(plan.drop_first(), resps.drop_first())
        }
    }
}

/// Every item gets an outcome: the run records exactly one result per
/// declared item, whatever the responses held.
pub proof fn lemma_every_item_reported(plan: Seq<CertPlan>, resps: Seq<MutationResponse>)
    ensures
        spec_results(plan, resps).len() == plan.len(),
    decreases plan.len(),
{
    if plan.len() > 0 {
        let a = plan.first().action;
        if a == PlannedAction::Failure || a == PlannedAction::Skip {
            lemma_every_item_reported(plan.drop_first(), resps);
        } else {
            lemma_every_item_reported(plan.drop_first(), resps.drop_first());
        }
    }
}

/// The outcome buckets of a run: each entry is the index of the declared
/// item, recorded in declaration order.
#[derive(Debug)]
pub struct Buckets {
    pub created: Vec<usize>,
    pub updated: Vec<usize>,
    pub skipped: Vec<usize>,
    pub failed: Vec<usize>,
    pub deleted: Vec<usize>,
}

/// The indices of the items that came to the given result, ascending.
pub open spec fn spec_idx_of(results: Seq<ItemResult>, kind: ItemResult) -> Seq<int>
    decreases results.len(),
{
    if results.len() == 0 {
        Seq::empty()
    } else {
        spec_idx_of(results.drop_last(), kind) + (if results.last() == kind {
            seq![results.len() - 1]
        } else {
            Seq::<int>::empty()
        })
    }
}

/// Every item lands in exactly one bucket: the four buckets together hold
/// as many entries as the run had items.
pub proof fn lemma_buckets_partition(results: Seq<ItemResult>)
    ensures
        spec_idx_of(results, ItemResult::Created).len() + spec_idx_of(
            results,
            ItemResult::Updated,
        ).len() + spec_idx_of(results, ItemResult::Skipped).len() + spec_idx_of(
            results,
            ItemResult::Failed,
        ).len() == results.len(),
    decreases results.len(),
{
    if results.len() > 0 {
        lemma_buckets_partition(results.drop_last());
    }
}

/// The run failed as a whole exactly when some item failed.
pub open spec fn spec_exit_success(b: Buckets) -> bool {
    b.failed@.len() == 0
}

/// The failed bucket is empty exactly when no item failed: the aggregate
/// run succeeds if and only if every item was created, updated or
/// skipped.
pub proof fn lemma_failure_bucket_is_exact(results: Seq<ItemResult>)
    ensures
        (spec_idx_of(results, ItemResult::Failed).len() == 0) <==> (forall|i: int|
            0 <= i < results.len() ==> results[i] != ItemResult::Failed),
    decreases results.len(),
{
    if results.len() > 0 {
        lemma_failure_bucket_is_exact(results.drop_last());
        assert(results.last() == results[results.len() - 1]);
        assert(forall|i: int|
            0 <= i < results.len() - 1 ==> results.drop_last()[i] == results[i]);
    }
}

/// The final status of a run: success exactly when the failed bucket is
/// empty, however many items were created, updated, skipped or deleted.
pub fn exit_success(b: &Buckets) -> (r: bool)
    ensures
        r == spec_exit_success(*b),
{
    b.failed.len() == 0
}

/// A response that matched no known schema: the whole run aborts, since
/// the service's contract has changed underneath the client.
#[derive(Clone, Copy, Debug, PartialEq, Eq, Structural)]
pub struct FatalProtocolError {
    /// The index of the declared item whose response was unreadable.
    pub index: usize,
    /// The status that came with it.
    pub status: u16,
}

/// Applies the mutation responses to the plan, in declaration order, and
/// aggregates the outcome buckets. `resps` holds one response per planned
/// create or update, in plan order. A fatal response aborts the run at
/// that item; a schema-conformant rejection fails only its own item.
pub fn apply_certificate_outcomes(plan: &Vec<CertPlan>, resps: &Vec<MutationResponse>) -> (r:
    Result<Buckets, FatalProtocolError>)
    requires
        resps@.len() == spec_call_count(plan@),
    ensures
        (r is Err) == spec_run_fatal(plan@, resps@),
        r matches Err(e) ==> e.index < plan@.len(),
        r matches Ok(b) ==> {
            let results = spec_results(plan@, resps@);
            &&& b.created@.map_values(|u: usize| u as int) == spec_idx_of(
                results,
                ItemResult::Created,
            )
            &&& b.updated@.map_values(|u: usize| u as int) == spec_idx_of(
                results,
                ItemResult::Updated,
            )
            &&& b.skipped@.map_values(|u: usize| u as int) == spec_idx_of(
                results,
                ItemResult::Skipped,
            )
            &&& b.failed@.map_values(|u: usize| u as int) == spec_idx_of(
                results,
                ItemResult::Failed,
            )
            &&& b.deleted@.len() == 0
        },
{
    let mut b = Buckets {
        created: Vec::new(),
        updated: Vec::new(),
        skipped: Vec::new(),
        failed: Vec::new(),
        deleted: Vec::new(),
    };
    let n = plan.len();
    let mut i: usize = 0;
    let mut c: usize = 0;
    let ghost mut done: Seq<ItemResult> = Seq::empty();
    proof {
        assert(plan@.skip(0) =~= plan@);
        assert(resps@.skip(0) =~= resps@);
        assert(Seq::<ItemResult>::empty() + spec_results(plan@, resps@) =~= spec_results(
            plan@,
            resps@,
        ));
    }
    while i < n
        invariant
            i <= n,
            c <= resps@.len(),
            n == plan@.len(),
            resps@.len() == spec_call_count(plan@),
            done.len() == i,
            spec_call_count(plan@.skip(i as int)) == resps@.len() - c,
            spec_results(plan@, resps@) == done + spec_results(
                plan@.skip(i as int),
                resps@.skip(c as int),
            ),
            spec_run_fatal(plan@, resps@) == spec_run_fatal(
                plan@.skip(i as int),
                resps@.skip(c as int),
            ),
            b.created@.map_values(|u: usize| u as int) == spec_idx_of(done, ItemResult::Created),
            b.updated@.map_values(|u: usize| u as int) == spec_idx_of(done, ItemResult::Updated),
            b.skipped@.map_values(|u: usize| u as int) == spec_idx_of(done, ItemResult::Skipped),
            b.failed@.map_values(|u: usize| u as int) == spec_idx_of(done, ItemResult::Failed),
            b.deleted@.len() == 0,
        decreases n - i,
    {
        let ghost rest_plan = plan@.skip(i as int);
        let ghost rest_resps = resps@.skip(c as int);
        proof {
            assert(rest_plan.first() == plan@[i as int]);
            assert(rest_plan.drop_first() =~= plan@.skip(i as int + 1));
        }
        let step = plan[i];
        let result: ItemResult = match step.action {
            PlannedAction::Failure => ItemResult::Failed,
            PlannedAction::Skip => ItemResult::Skipped,
            _ => {
                proof {
                    assert(spec_call_count(rest_plan) >= 1) by {
                        assert(spec_needs_call(rest_plan.first().action));
                        lemma_call_count_nonneg(rest_plan.drop_first());
                    };
                    vstd::std_specs::vec::axiom_spec_len(resps);
                    assert(c < resps@.len());
                    assert(rest_resps.first() == resps@[c as int]);
                    assert(rest_resps.drop_first() =~= resps@.skip(c as int + 1));
                }
                let expected: u16 = if step.action == PlannedAction::Create {
                    201
                } else {
                    200
                };
                let resp = resps[c];
                c = c + 1;
                match classify_mutation_response(expected, &resp) {
                    MutationOutcome::Succeeded => {
                        if step.action == PlannedAction::Create {
                            ItemResult::Created
                        } else {
                            ItemResult::Updated
                        }
                    },
                    MutationOutcome::Rejected => ItemResult::Failed,
                    MutationOutcome::Fatal => {
                        proof {
                            assert(spec_run_fatal(rest_plan, rest_resps));
                        }
                        return Err(FatalProtocolError { index: i, status: resp.status });
                    },
                }
            },
        };
        let ghost prev_done = done;
        proof {
            done = done.push(result);
            assert(done.drop_last() =~= prev_done);
            assert(done.last() == result);
            // one unfolding of the run at the current item
            assert(spec_results(rest_plan, rest_resps) == seq![result] + spec_results(
                plan@.skip(i as int + 1),
                resps@.skip(c as int),
            ));
            assert(spec_run_fatal(rest_plan, rest_resps) == spec_run_fatal(
                plan@.skip(i as int + 1),
                resps@.skip(c as int),
            ));
            assert(done + spec_results(plan@.skip(i as int + 1), resps@.skip(c as int))
                =~= prev_done + spec_results(rest_plan, rest_resps));
        }
        match result {
            ItemResult::Created => {
                let ghost prev = b.created@;
                b.created.push(i);
                proof {
                    assert(b.created@.map_values(|u: usize| u as int) =~= prev.map_values(
                        |u: usize| u as int,
                    ).push(i as int));
                    assert(spec_idx_of(done, ItemResult::Created) =~= spec_idx_of(
                        prev_done,
                        ItemResult::Created,
                    ) + seq![i as int]);
                }
            },
            ItemResult::Updated => {
                let ghost prev = b.updated@;
                b.updated.push(i);
                proof {
                    assert(b.updated@.map_values(|u: usize| u as int) =~= prev.map_values(
                        |u: usize| u as int,
                    ).push(i as int));
                    assert(spec_idx_of(done, ItemResult::Updated) =~= spec_idx_of(
                        prev_done,
                        ItemResult::Updated,
                    ) + seq![i as int]);
                }
            },
            ItemResult::Skipped => {
                let ghost prev = b.skipped@;
                b.skipped.push(i);
                proof {
                    assert(b.skipped@.map_values(|u: usize| u as int) =~= prev.map_values(
                        |u: usize| u as int,
                    ).push(i as int));
                    assert(spec_idx_of(done, ItemResult::Skipped) =~= spec_idx_of(
                        prev_done,
                        ItemResult::Skipped,
                    ) + seq![i as int]);
                }
            },
            ItemResult::Failed => {
                let ghost prev = b.failed@;
                b.failed.push(i);
                proof {
                    assert(b.failed@.map_values(|u: usize| u as int) =~= prev.map_values(
                        |u: usize| u as int,
                    ).push(i as int));
                    assert(spec_idx_of(done, ItemResult::Failed) =~= spec_idx_of(
                        prev_done,
                        ItemResult::Failed,
                    ) + seq![i as int]);
                }
            },
        }
        proof {
            assert forall|kind: ItemResult| kind != result implies spec_idx_of(done, kind)
                =~= spec_idx_of(prev_done, kind) by {
            }
        }
        i = i + 1;
    }
    proof {
        assert(plan@.skip(n as int) =~= Seq::<CertPlan>::empty());
        assert(spec_results(plan@, resps@) =~= done);
        assert(!spec_run_fatal(plan@, resps@));
    }
    Ok(b)
}

/// Builds the payload of one create or update call: the declared name,
/// the matched remote record's id where the plan found one, and the
/// three artifacts flattened to single lines, as the wire format wants
/// them.
pub fn build_certificate_payload(
    name: &str,
    existing_id: Option<i64>,
    certificate: &str,
    chain: &str,
    key: &str,
) -> (r: crate::models::CreateUpdateCertificate)
    ensures
        r.name@ == name@,
        r.id == existing_id,
        r.certificate@ == certificate@.filter(|c: char| c != '\n'),
        r.chain@ == chain@.filter(|c: char| c != '\n'),
        r.private_key.value@ == key@.filter(|c: char| c != '\n'),
{
    crate::models::CreateUpdateCertificate {
        id: existing_id,
        name: crate::strutil::copy_str(name),
        certificate: crate::strutil::strip_newlines(certificate),
        chain: crate::strutil::strip_newlines(chain),
        private_key: crate::models::StringValue { value: crate::strutil::strip_newlines(key) },
    }
}

/// A call count is never negative.
proof fn lemma_call_count_nonneg(plan: Seq<CertPlan>)
    ensures
        spec_call_count(plan) >= 0,
    decreases plan.len(),
{
    if plan.len() > 0 {
        lemma_call_count_nonneg(plan.drop_first());
    }
}

} // verus!
