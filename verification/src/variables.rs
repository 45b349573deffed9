//! The reconciliation planner for variable sets (environment and pipeline
//! variables): every declared variable is paired with the remote variable
//! of the same name, secret values are decrypted before comparison, and a
//! remote variable that no declaration covers becomes a deletion entry —
//! a variable with no value, signalling removal to the service.

use vstd::prelude::*;
use vstd::string::StrSliceExecFns;
use vstd::string::StringExecFns;
use crate::crypto::{decrypt, decrypted_of};
use crate::decision::ReconciliationDecision;
use crate::models::{EnvironmentVariable, EnvironmentVariableServiceType, PipelineVariable,
    PipelineVariableServiceType, VariableType};
use crate::strutil::{has_prefix, opt_string_eq, opt_view, spec_has_prefix, spec_opt_str_eq};

verus! {

/// One variable, reduced to what the reconciliation compares: its name,
/// its value (none marks a deletion), and whether it is a secret.
#[derive(Debug)]
pub struct VarItem {
    pub name: String,
    pub value: Option<String>,
    pub secret: bool,
}

/// The plain view of one variable.
pub open spec fn var_view(v: VarItem) -> (Seq<char>, Option<Seq<char>>, bool) {
    (v.name@, opt_view(v.value), v.secret)
}

/// One planned entry: the variable as it will be written, the decision,
/// and where it came from (the declared list, the remote list, or both).
#[derive(Debug)]
pub struct PlannedVariable {
    pub item: VarItem,
    pub decision: ReconciliationDecision,
    pub desired_index: Option<usize>,
    pub remote_index: Option<usize>,
}

/// An index option as a plain value.
pub open spec fn opt_idx(a: Option<usize>) -> Option<int> {
    match a {
        Option::None => Option::None,
        Option::Some(i) => Option::Some(i as int),
    }
}

/// The plain view of one planned entry.
pub open spec fn entry_view(p: PlannedVariable) -> (
    Seq<char>,
    Option<Seq<char>>,
    bool,
    Option<int>,
    Option<int>,
    ReconciliationDecision,
) {
    (
        p.item.name@,
        opt_view(p.item.value),
        p.item.secret,
        opt_idx(p.desired_index),
        opt_idx(p.remote_index),
        p.decision,
    )
}

/// A declared secret value carries ciphertext when it starts with the
/// encryption marker.
pub open spec fn spec_needs_decryption(value: Option<Seq<char>>, secret: bool) -> bool {
    secret && (value matches Some(s) && spec_has_prefix(s, "$enc "@))
}

/// The value a declared variable contributes after secret handling:
/// unchanged unless it is marked ciphertext, in which case the marker is
/// stripped and the rest decrypted; nothing when decryption fails.
pub open spec fn spec_prepared_value(
    key: Seq<char>,
    value: Option<Seq<char>>,
    secret: bool,
) -> Option<Option<Seq<char>>> {
    if !spec_needs_decryption(value, secret) {
        Option::Some(value)
    } else {
        match decrypted_of(key, value->Some_0.skip("$enc "@.len() as int)) {
            Option::None => Option::None,
            Option::Some(d) => Option::Some(Option::Some(d)),
        }
    }
}

/// The index of the first variable of the given name, if any.
pub open spec fn spec_find_var(
    list: Seq<(Seq<char>, Option<Seq<char>>, bool)>,
    name: Seq<char>,
) -> Option<int>
    decreases list.len(),
{
    if list.len() == 0 {
        Option::None
    } else if list.first().0 == name {
        Option::Some(0)
    } else {
        match spec_find_var(list.drop_first(), name) {
            Option::None => Option::None,
            Option::Some(i) => Option::Some(i + 1),
        }
    }
}

/// The name search finds exactly the first hit.
pub proof fn lemma_find_var_first(list: Seq<(Seq<char>, Option<Seq<char>>, bool)>, name: Seq<char>)
    ensures
        match spec_find_var(list, name) {
            Option::Some(i) => 0 <= i < list.len() && list[i].0 == name && forall|k: int|
                0 <= k < i ==> list[k].0 != name,
            Option::None => forall|k: int| 0 <= k < list.len() ==> list[k].0 != name,
        },
    decreases list.len(),
{
    if list.len() == 0 {
    } else if list.first().0 == name {
    } else {
        lemma_find_var_first(list.drop_first(), name);
        assert(forall|k: int| 1 <= k < list.len() ==> list[k] == list.drop_first()[k - 1]);
    }
}

/// Whether some variable of the given name is declared.
pub open spec fn spec_desired_has(
    desired: Seq<(Seq<char>, Option<Seq<char>>, bool)>,
    name: Seq<char>,
) -> bool {
    spec_find_var(desired, name) is Some
}

/// The decision for one declared variable with prepared value `pv`: no
/// remote variable of the name means create; one with the same value
/// means skip; one with another value means update.
pub open spec fn spec_variable_decision(
    remote: Seq<(Seq<char>, Option<Seq<char>>, bool)>,
    name: Seq<char>,
    pv: Option<Seq<char>>,
) -> ReconciliationDecision {
    match spec_find_var(remote, name) {
        Option::None => ReconciliationDecision::Create,
        Option::Some(j) => if spec_opt_str_eq(remote[j].1, pv) {
            ReconciliationDecision::Skip
        } else {
            ReconciliationDecision::Update
        },
    }
}

/// The planned entries for the declared variables, in declaration order;
/// nothing when some secret value fails to decrypt.
pub open spec fn spec_planned_desired(
    desired: Seq<(Seq<char>, Option<Seq<char>>, bool)>,
    remote: Seq<(Seq<char>, Option<Seq<char>>, bool)>,
    key: Seq<char>,
) -> Option<
    Seq<(Seq<char>, Option<Seq<char>>, bool, Option<int>, Option<int>, ReconciliationDecision)>,
>
    decreases desired.len(),
{
    if desired.len() == 0 {
        Option::Some(Seq::empty())
    } else {
        match spec_planned_desired(desired.drop_last(), remote, key) {
            Option::None => Option::None,
            Option::Some(s) => {
                let d = desired.last();
                match spec_prepared_value(key, d.1, d.2) {
                    Option::None => Option::None,
                    Option::Some(pv) => Option::Some(
                        s.push(
                            (
                                d.0,
                                pv,
                                d.2,
                                Option::Some(desired.len() - 1),
                                spec_find_var(remote, d.0),
                                spec_variable_decision(remote, d.0, pv),
                            ),
                        ),
                    ),
                }
            },
        }
    }
}

/// The deletion entries: one per remote variable whose name no declared
/// variable carries, in the remote list's order, each with no value.
pub open spec fn spec_planned_deletes(
    desired: Seq<(Seq<char>, Option<Seq<char>>, bool)>,
    remote: Seq<(Seq<char>, Option<Seq<char>>, bool)>,
) -> Seq<(Seq<char>, Option<Seq<char>>, bool, Option<int>, Option<int>, ReconciliationDecision)>
    decreases remote.len(),
{
    if remote.len() == 0 {
        Seq::empty()
    } else {
        spec_planned_deletes(desired, remote.drop_last()) + (if spec_desired_has(
            desired,
            remote.last().0,
        ) {
            Seq::empty()
        } else {
            seq![
                (
                    remote.last().0,
                    Option::<Seq<char>>::None,
                    remote.last().2,
                    Option::<int>::None,
                    Option::Some(remote.len() - 1),
                    ReconciliationDecision::Delete,
                ),
            ]
        })
    }
}

/// The whole variable plan: the declared entries followed by the
/// deletion entries.
pub open spec fn spec_variable_plan(
    desired: Seq<(Seq<char>, Option<Seq<char>>, bool)>,
    remote: Seq<(Seq<char>, Option<Seq<char>>, bool)>,
    key: Seq<char>,
) -> Option<
    Seq<(Seq<char>, Option<Seq<char>>, bool, Option<int>, Option<int>, ReconciliationDecision)>,
> {
    match spec_planned_desired(desired, remote, key) {
        Option::None => Option::None,
        Option::Some(s) => Option::Some(s + spec_planned_deletes(desired, remote)),
    }
}

/// A secret value that could not be decrypted: the declaration is wrong
/// (or the key is), and the run must not write garbage.
#[derive(Clone, Copy, Debug, PartialEq, Eq, Structural)]
pub struct SecretError {
    /// The index of the declared variable whose value failed to decrypt.
    pub desired_index: usize,
}

/// Finds the first variable of the given name.
fn find_var(list: &Vec<VarItem>, name: &str) -> (r: Option<usize>)
    ensures
        opt_idx(r) == spec_find_var(list@.map_values(|v: VarItem| var_view(v)), name@),
        r matches Some(i) ==> i < list@.len(),
{
    let ghost views = list@.map_values(|v: VarItem| var_view(v));
    let n = list.len();
    let mut i: usize = 0;
    while i < n
        invariant
            i <= n,
            n == list@.len(),
            views == list@.map_values(|v: VarItem| var_view(v)),
            forall|k: int| 0 <= k < i ==> views[k].0 != name@,
        decreases n - i,
    {
        if crate::strutil::str_eq(list[i].name.as_str(), name) {
            proof {
                lemma_find_var_first(views, name@);
                assert(views[i as int].0 == name@);
            }
            return Some(i);
        }
        i = i + 1;
    }
    proof {
        lemma_find_var_first(views, name@);
    }
    None
}

/// Applies secret handling to one declared value.
fn prepare_value(key: &str, value: &Option<String>, secret: bool) -> (r: Result<Option<String>, ()>)
    ensures
        (r is Ok) == (spec_prepared_value(key@, opt_view(*value), secret) is Some),
        r matches Ok(v) ==> spec_prepared_value(key@, opt_view(*value), secret) == Some(
            opt_view(v),
        ),
{
    if !secret {
        return Ok(clone_opt_string(value));
    }
    match value {
        Option::None => Ok(None),
        Option::Some(s) => {
            if has_prefix(s.as_str(), "$enc ") {
                proof {
                    reveal_strlit("$enc ");
                }
                let payload = s.as_str().substring_char(5, s.as_str().unicode_len());
                match decrypt(key, payload) {
                    Option::Some(d) => Ok(Some(d)),
                    Option::None => Err(()),
                }
            } else {
                Ok(Some(String::from_str(s.as_str())))
            }
        },
    }
}

/// Copies an optional value.
fn clone_opt_string(value: &Option<String>) -> (r: Option<String>)
    ensures
        opt_view(r) == opt_view(*value),
{
    match value {
        Option::None => None,
        Option::Some(s) => Some(String::from_str(s.as_str())),
    }
}

/// Plans one variable set: one entry per declared variable — created,
/// updated or skipped by comparing its prepared value with the remote one
/// of the same name — followed by one deletion entry per remote variable
/// that no declaration covers. Fails on the first secret that does not
/// decrypt, before any entry is handed out.
pub fn plan_variables(key: &str, desired: &Vec<VarItem>, remote: &Vec<VarItem>) -> (r: Result<
    Vec<PlannedVariable>,
    SecretError,
>)
    ensures
        (r is Ok) == (spec_variable_plan(
            desired@.map_values(|v: VarItem| var_view(v)),
            remote@.map_values(|v: VarItem| var_view(v)),
            key@,
        ) is Some),
        r matches Ok(v) ==> v@.map_values(|p: PlannedVariable| entry_view(p))
            == spec_variable_plan(
            desired@.map_values(|v: VarItem| var_view(v)),
            remote@.map_values(|v: VarItem| var_view(v)),
            key@,
        )->Some_0,
        r matches Err(e) ==> e.desired_index < desired@.len() && spec_prepared_value(
            key@,
            opt_view(desired@[e.desired_index as int].value),
            desired@[e.desired_index as int].secret,
        ) is None,
{
    let ghost dviews = desired@.map_values(|v: VarItem| var_view(v));
    let ghost rviews = remote@.map_values(|v: VarItem| var_view(v));
    let mut out: Vec<PlannedVariable> = Vec::new();
    let n = desired.len();
    let mut i: usize = 0;
    proof {
        assert(dviews.take(0) =~= Seq::<(Seq<char>, Option<Seq<char>>, bool)>::empty());
        assert(out@.map_values(|p: PlannedVariable| entry_view(p)) =~= Seq::<
            (Seq<char>, Option<Seq<char>>, bool, Option<int>, Option<int>, ReconciliationDecision),
        >::empty());
    }
    while i < n
        invariant
            i <= n,
            n == desired@.len(),
            dviews == desired@.map_values(|v: VarItem| var_view(v)),
            rviews == remote@.map_values(|v: VarItem| var_view(v)),
            spec_planned_desired(dviews.take(i as int), rviews, key@) matches Some(s) && s
                == out@.map_values(|p: PlannedVariable| entry_view(p)),
        decreases n - i,
    {
        let d = &desired[i];
        let pv = match prepare_value(key, &d.value, d.secret) {
            Ok(v) => v,
            Err(_) => {
                proof {
                    assert(dviews[i as int] == var_view(desired@[i as int]));
                    lemma_planned_desired_fails(dviews, rviews, key@, i as int);
                }
                return Err(SecretError { desired_index: i });
            },
        };
        let rix = find_var(remote, d.name.as_str());
        let decision: ReconciliationDecision = match rix {
            Option::None => ReconciliationDecision::Create,
            Option::Some(j) => {
                proof {
                    lemma_find_var_first(rviews, d.name@);
                    assert(rviews[j as int].1 == opt_view(remote@[j as int].value));
                }
                if opt_string_eq(&remote[j].value, &pv) {
                    ReconciliationDecision::Skip
                } else {
                    ReconciliationDecision::Update
                }
            },
        };
        let ghost prev = out@;
        let entry = PlannedVariable {
            item: VarItem { name: String::from_str(d.name.as_str()), value: pv, secret: d.secret },
            decision,
            desired_index: Some(i),
            remote_index: rix,
        };
        out.push(entry);
        proof {
            let f = |p: PlannedVariable| entry_view(p);
            let t1 = dviews.take(i as int + 1);
            assert(t1.drop_last() =~= dviews.take(i as int));
            assert(t1.last() == dviews[i as int]);
            assert(dviews[i as int] == var_view(desired@[i as int]));
            assert(out@.map_values(f) =~= prev.map_values(f).push(entry_view(entry)));
            assert(spec_planned_desired(t1, rviews, key@) matches Some(s2) && s2 == out@.map_values(
                f,
            ));
        }
        i = i + 1;
    }
    proof {
        assert(dviews.take(n as int) =~= dviews);
    }
    let m = remote.len();
    let mut j: usize = 0;
    let ghost desired_part = out@.map_values(|p: PlannedVariable| entry_view(p));
    proof {
        assert(rviews.take(0) =~= Seq::<(Seq<char>, Option<Seq<char>>, bool)>::empty());
        assert(desired_part + spec_planned_deletes(dviews, rviews.take(0)) =~= desired_part);
    }
    while j < m
        invariant
            j <= m,
            m == remote@.len(),
            dviews == desired@.map_values(|v: VarItem| var_view(v)),
            rviews == remote@.map_values(|v: VarItem| var_view(v)),
            spec_planned_desired(dviews, rviews, key@) matches Some(s) && s == desired_part,
            out@.map_values(|p: PlannedVariable| entry_view(p)) == desired_part
                + spec_planned_deletes(dviews, rviews.take(j as int)),
        decreases m - j,
    {
        let rv = &remote[j];
        let hit = find_var(desired, rv.name.as_str());
        let ghost prev = out@;
        if hit.is_none() {
            let entry = PlannedVariable {
                item: VarItem {
                    name: String::from_str(rv.name.as_str()),
                    value: None,
                    secret: rv.secret,
                },
                decision: ReconciliationDecision::Delete,
                desired_index: None,
                remote_index: Some(j),
            };
            out.push(entry);
            proof {
                let f = |p: PlannedVariable| entry_view(p);
                assert(out@.map_values(f) =~= prev.map_values(f).push(entry_view(out@.last())));
            }
        }
        proof {
            let f = |p: PlannedVariable| entry_view(p);
            let t1 = rviews.take(j as int + 1);
            assert(t1.drop_last() =~= rviews.take(j as int));
            assert(t1.last() == rviews[j as int]);
            assert(rviews[j as int] == var_view(remote@[j as int]));
            assert(out@.map_values(f) =~= desired_part + spec_planned_deletes(dviews, t1));
        }
        j = j + 1;
    }
    proof {
        assert(rviews.take(m as int) =~= rviews);
    }
    Ok(out)
}

/// A failed secret anywhere fails the whole plan.
proof fn lemma_planned_desired_fails(
    desired: Seq<(Seq<char>, Option<Seq<char>>, bool)>,
    remote: Seq<(Seq<char>, Option<Seq<char>>, bool)>,
    key: Seq<char>,
    i: int,
)
    requires
        0 <= i < desired.len(),
        spec_prepared_value(key, desired[i].1, desired[i].2) is None,
    ensures
        spec_planned_desired(desired, remote, key) is None,
    decreases desired.len(),
{
    if desired.len() > 0 {
        if i == desired.len() - 1 {
            assert(desired.last() == desired[i]);
        } else {
            lemma_planned_desired_fails(desired.drop_last(), remote, key, i);
            assert(desired.drop_last()[i] == desired[i]);
        }
    }
}

/// The variables actually written back: every planned entry that is not
/// a skip, in plan order.
pub open spec fn spec_payload(
    entries: Seq<
        (Seq<char>, Option<Seq<char>>, bool, Option<int>, Option<int>, ReconciliationDecision),
    >,
) -> Seq<(Seq<char>, Option<Seq<char>>, bool)>
    decreases entries.len(),
{
    if entries.len() == 0 {
        Seq::empty()
    } else {
        spec_payload(entries.drop_last()) + (if entries.last().5 == ReconciliationDecision::Skip {
            Seq::empty()
        } else {
            seq![(entries.last().0, entries.last().1, entries.last().2)]
        })
    }
}

/// Builds the write-back payload from a plan: the non-skipped entries.
/// An empty payload means the set needs no mutation call at all.
pub fn patch_payload(plan: &Vec<PlannedVariable>) -> (r: Vec<VarItem>)
    ensures
        r@.map_values(|v: VarItem| var_view(v)) == spec_payload(
            plan@.map_values(|p: PlannedVariable| entry_view(p)),
        ),
{
    let mut out: Vec<VarItem> = Vec::new();
    let n = plan.len();
    let mut i: usize = 0;
    proof {
        assert(plan@.take(0).map_values(|p: PlannedVariable| entry_view(p)) =~= Seq::<
            (Seq<char>, Option<Seq<char>>, bool, Option<int>, Option<int>, ReconciliationDecision),
        >::empty());
        assert(out@.map_values(|v: VarItem| var_view(v)) =~= spec_payload(
            plan@.take(0).map_values(|p: PlannedVariable| entry_view(p)),
        ));
    }
    while i < n
        invariant
            i <= n,
            n == plan@.len(),
            out@.map_values(|v: VarItem| var_view(v)) == spec_payload(
                plan@.take(i as int).map_values(|p: PlannedVariable| entry_view(p)),
            ),
        decreases n - i,
    {
        let p = &plan[i];
        let ghost prev = out@;
        let skip = p.decision == ReconciliationDecision::Skip;
        if !skip {
            let item = VarItem {
                name: String::from_str(p.item.name.as_str()),
                value: clone_opt_string(&p.item.value),
                secret: p.item.secret,
            };
            out.push(item);
            proof {
                let g = |v: VarItem| var_view(v);
                assert(out@.map_values(g) =~= prev.map_values(g).push(var_view(out@.last())));
            }
        }
        proof {
            let f = |p: PlannedVariable| entry_view(p);
            let g = |v: VarItem| var_view(v);
            let t1 = plan@.take(i as int + 1).map_values(f);
            assert(t1.drop_last() =~= plan@.take(i as int).map_values(f));
            assert(t1.last() == entry_view(plan@[i as int]));
            assert(out@.map_values(g) =~= spec_payload(t1));
        }
        i = i + 1;
    }
    proof {
        assert(plan@.take(n as int) =~= plan@);
    }
    out
}

/// When every planned entry is a skip — every declared value already
/// stands remotely and nothing is orphaned — the payload is empty and
/// the set triggers no mutation call.
pub proof fn lemma_all_skip_empty_payload(
    entries: Seq<
        (Seq<char>, Option<Seq<char>>, bool, Option<int>, Option<int>, ReconciliationDecision),
    >,
)
    requires
        forall|i: int| 0 <= i < entries.len() ==> entries[i].5 == ReconciliationDecision::Skip,
    ensures
        spec_payload(entries).len() == 0,
    decreases entries.len(),
{
    if entries.len() > 0 {
        assert(entries.last() == entries[entries.len() - 1]);
        assert(forall|i: int| 0 <= i < entries.len() - 1 ==> entries.drop_last()[i] == entries[i]);
        lemma_all_skip_empty_payload(entries.drop_last());
    }
}

/// A deletion is planned only for a remote variable that no declaration
/// covers, never the other way round: every delete entry names a remote
/// variable, carries no value, and its name is not declared.
pub proof fn lemma_delete_only_for_orphans(
    desired: Seq<(Seq<char>, Option<Seq<char>>, bool)>,
    remote: Seq<(Seq<char>, Option<Seq<char>>, bool)>,
    key: Seq<char>,
)
    ensures
        spec_variable_plan(desired, remote, key) matches Some(entries) ==> forall|i: int|
            0 <= i < entries.len() && (#[trigger] entries[i]).5 == ReconciliationDecision::Delete
                ==> !spec_desired_has(desired, entries[i].0) && entries[i].1 is None && (
            entries[i].4 matches Some(j) && 0 <= j < remote.len() && remote[j].0 == entries[i].0),
{
    if spec_variable_plan(desired, remote, key) is Some {
        let des = spec_planned_desired(desired, remote, key)->Some_0;
        lemma_desired_entries_not_delete(desired, remote, key);
        lemma_delete_entries_are_orphans(desired, remote);
        let dels = spec_planned_deletes(desired, remote);
        assert forall|i: int|
            0 <= i < (des + dels).len() && (#[trigger] (des + dels)[i]).5
                == ReconciliationDecision::Delete implies !spec_desired_has(
            desired,
            (des + dels)[i].0,
        ) && (des + dels)[i].1 is None && ((des + dels)[i].4 matches Some(j) && 0 <= j
            < remote.len() && remote[j].0 == (des + dels)[i].0) by {
            if i < des.len() {
                assert((des + dels)[i] == des[i]);
            } else {
                assert((des + dels)[i] == dels[i - des.len()]);
            }
        }
    }
}

/// No declared variable is ever planned for deletion.
proof fn lemma_desired_entries_not_delete(
    desired: Seq<(Seq<char>, Option<Seq<char>>, bool)>,
    remote: Seq<(Seq<char>, Option<Seq<char>>, bool)>,
    key: Seq<char>,
)
    ensures
        spec_planned_desired(desired, remote, key) matches Some(s) ==> forall|i: int|
            0 <= i < s.len() ==> (#[trigger] s[i]).5 != ReconciliationDecision::Delete,
    decreases desired.len(),
{
    if desired.len() > 0 {
        lemma_desired_entries_not_delete(desired.drop_last(), remote, key);
    }
}

/// Every deletion entry is a remote orphan with no value.
proof fn lemma_delete_entries_are_orphans(
    desired: Seq<(Seq<char>, Option<Seq<char>>, bool)>,
    remote: Seq<(Seq<char>, Option<Seq<char>>, bool)>,
)
    ensures
        forall|i: int|
            0 <= i < spec_planned_deletes(desired, remote).len() ==> {
                let e = #[trigger] spec_planned_deletes(desired, remote)[i];
                &&& e.5 == ReconciliationDecision::Delete
                &&& !spec_desired_has(desired, e.0)
                &&& e.1 is None
                &&& (e.4 matches Some(j) && 0 <= j < remote.len() && remote[j].0 == e.0)
            },
    decreases remote.len(),
{
    if remote.len() > 0 {
        lemma_delete_entries_are_orphans(desired, remote.drop_last());
        assert(forall|k: int| 0 <= k < remote.len() - 1 ==> remote.drop_last()[k] == remote[k]);
    }
}

// Typed adapters
// -------------------------------------------------------------------------

/// The plain view of one environment variable.
pub open spec fn env_item_view(v: EnvironmentVariable) -> (Seq<char>, Option<Seq<char>>, bool) {
    (v.name@, opt_view(v.value), v.variable_type == VariableType::SecretString)
}

/// The plain view of one pipeline variable.
pub open spec fn pipeline_item_view(v: PipelineVariable) -> (Seq<char>, Option<Seq<char>>, bool) {
    (v.name@, opt_view(v.value), v.variable_type == VariableType::SecretString)
}

/// Reduces environment variables to what the planner compares; a
/// `secretString` variable is a secret.
pub fn env_to_items(vars: &Vec<EnvironmentVariable>) -> (r: Vec<VarItem>)
    ensures
        r@.map_values(|v: VarItem| var_view(v)) == vars@.map_values(
            |v: EnvironmentVariable| env_item_view(v),
        ),
{
    let mut out: Vec<VarItem> = Vec::new();
    let n = vars.len();
    let mut i: usize = 0;
    proof {
        assert(out@.map_values(|v: VarItem| var_view(v)) =~= vars@.take(0).map_values(
            |v: EnvironmentVariable| env_item_view(v),
        ));
    }
    while i < n
        invariant
            i <= n,
            n == vars@.len(),
            out@.map_values(|v: VarItem| var_view(v)) == vars@.take(i as int).map_values(
                |v: EnvironmentVariable| env_item_view(v),
            ),
        decreases n - i,
    {
        let v = &vars[i];
        let ghost prev = out@;
        let secret = v.variable_type == VariableType::SecretString;
        out.push(
            VarItem {
                name: String::from_str(v.name.as_str()),
                value: clone_opt_string(&v.value),
                secret,
            },
        );
        proof {
            let g = |v: VarItem| var_view(v);
            let f = |v: EnvironmentVariable| env_item_view(v);
            assert(vars@.take(i as int + 1) =~= vars@.take(i as int).push(vars@[i as int]));
            assert(out@.map_values(g) =~= prev.map_values(g).push(var_view(out@.last())));
            assert(out@.map_values(g) =~= vars@.take(i as int + 1).map_values(f));
        }
        i = i + 1;
    }
    proof {
        assert(vars@.take(n as int) =~= vars@);
    }
    out
}

/// Reduces pipeline variables to what the planner compares.
pub fn pipeline_to_items(vars: &Vec<PipelineVariable>) -> (r: Vec<VarItem>)
    ensures
        r@.map_values(|v: VarItem| var_view(v)) == vars@.map_values(
            |v: PipelineVariable| pipeline_item_view(v),
        ),
{
    let mut out: Vec<VarItem> = Vec::new();
    let n = vars.len();
    let mut i: usize = 0;
    proof {
        assert(out@.map_values(|v: VarItem| var_view(v)) =~= vars@.take(0).map_values(
            |v: PipelineVariable| pipeline_item_view(v),
        ));
    }
    while i < n
        invariant
            i <= n,
            n == vars@.len(),
            out@.map_values(|v: VarItem| var_view(v)) == vars@.take(i as int).map_values(
                |v: PipelineVariable| pipeline_item_view(v),
            ),
        decreases n - i,
    {
        let v = &vars[i];
        let ghost prev = out@;
        let secret = v.variable_type == VariableType::SecretString;
        out.push(
            VarItem {
                name: String::from_str(v.name.as_str()),
                value: clone_opt_string(&v.value),
                secret,
            },
        );
        proof {
            let g = |v: VarItem| var_view(v);
            let f = |v: PipelineVariable| pipeline_item_view(v);
            assert(vars@.take(i as int + 1) =~= vars@.take(i as int).push(vars@[i as int]));
            assert(out@.map_values(g) =~= prev.map_values(g).push(var_view(out@.last())));
            assert(out@.map_values(g) =~= vars@.take(i as int + 1).map_values(f));
        }
        i = i + 1;
    }
    proof {
        assert(vars@.take(n as int) =~= vars@);
    }
    out
}

/// The variable type and service behind one planned entry: read from the
/// declared list when the entry came from there, from the remote list
/// when it is a deletion; a dangling index falls back to what the entry
/// itself shows, with the default service.
pub open spec fn spec_env_meta(
    e: (Seq<char>, Option<Seq<char>>, bool, Option<int>, Option<int>, ReconciliationDecision),
    desired: Seq<EnvironmentVariable>,
    remote: Seq<EnvironmentVariable>,
) -> (VariableType, EnvironmentVariableServiceType) {
    let fallback = (
        if e.2 {
            VariableType::SecretString
        } else {
            VariableType::String
        },
        EnvironmentVariableServiceType::All,
    );
    match e.3 {
        Option::Some(k) => if 0 <= k < desired.len() {
            (desired[k].variable_type, desired[k].service)
        } else {
            fallback
        },
        Option::None => match e.4 {
            Option::Some(j) => if 0 <= j < remote.len() {
                (remote[j].variable_type, remote[j].service)
            } else {
                fallback
            },
            Option::None => fallback,
        },
    }
}

/// The typed write-back payload: every non-skipped entry, carrying its
/// prepared name and value and the type and service of its source.
pub open spec fn spec_env_typed_payload(
    entries: Seq<
        (Seq<char>, Option<Seq<char>>, bool, Option<int>, Option<int>, ReconciliationDecision),
    >,
    desired: Seq<EnvironmentVariable>,
    remote: Seq<EnvironmentVariable>,
) -> Seq<(Seq<char>, Option<Seq<char>>, VariableType, EnvironmentVariableServiceType)>
    decreases entries.len(),
{
    if entries.len() == 0 {
        Seq::empty()
    } else {
        spec_env_typed_payload(entries.drop_last(), desired, remote) + (if entries.last().5
            == ReconciliationDecision::Skip {
            Seq::empty()
        } else {
            seq![
                (
                    entries.last().0,
                    entries.last().1,
                    spec_env_meta(entries.last(), desired, remote).0,
                    spec_env_meta(entries.last(), desired, remote).1,
                ),
            ]
        })
    }
}

/// The plain view of one typed environment variable.
pub open spec fn env_full_view(v: EnvironmentVariable) -> (
    Seq<char>,
    Option<Seq<char>>,
    VariableType,
    EnvironmentVariableServiceType,
) {
    (v.name@, opt_view(v.value), v.variable_type, v.service)
}

/// Rebuilds the typed environment variable payload from a plan: one
/// variable per non-skipped entry, in plan order, with the declared
/// type and service for declared entries and the service's reported ones
/// for deletions.
pub fn env_payload(
    plan: &Vec<PlannedVariable>,
    desired: &Vec<EnvironmentVariable>,
    remote: &Vec<EnvironmentVariable>,
) -> (r: Vec<EnvironmentVariable>)
    ensures
        r@.map_values(|v: EnvironmentVariable| env_full_view(v)) == spec_env_typed_payload(
            plan@.map_values(|p: PlannedVariable| entry_view(p)),
            desired@,
            remote@,
        ),
{
    let mut out: Vec<EnvironmentVariable> = Vec::new();
    let n = plan.len();
    let mut i: usize = 0;
    proof {
        assert(plan@.take(0).map_values(|p: PlannedVariable| entry_view(p)) =~= Seq::<
            (Seq<char>, Option<Seq<char>>, bool, Option<int>, Option<int>, ReconciliationDecision),
        >::empty());
        assert(out@.map_values(|v: EnvironmentVariable| env_full_view(v))
            =~= spec_env_typed_payload(
            plan@.take(0).map_values(|p: PlannedVariable| entry_view(p)),
            desired@,
            remote@,
        ));
    }
    while i < n
        invariant
            i <= n,
            n == plan@.len(),
            out@.map_values(|v: EnvironmentVariable| env_full_view(v)) == spec_env_typed_payload(
                plan@.take(i as int).map_values(|p: PlannedVariable| entry_view(p)),
                desired@,
                remote@,
            ),
        decreases n - i,
    {
        let p = &plan[i];
        let ghost prev = out@;
        if p.decision != ReconciliationDecision::Skip {
            let fallback_type = if p.item.secret {
                VariableType::SecretString
            } else {
                VariableType::String
            };
            let (typ, service): (VariableType, EnvironmentVariableServiceType) = match p
                .desired_index {
                Option::Some(k) => {
                    if k < desired.len() {
                        (desired[k].variable_type, desired[k].service)
                    } else {
                        (fallback_type, EnvironmentVariableServiceType::All)
                    }
                },
                Option::None => {
                    match p.remote_index {
                        Option::Some(j) => {
                            if j < remote.len() {
                                (remote[j].variable_type, remote[j].service)
                            } else {
                                (fallback_type, EnvironmentVariableServiceType::All)
                            }
                        },
                        Option::None => (fallback_type, EnvironmentVariableServiceType::All),
                    }
                },
            };
            out.push(
                EnvironmentVariable {
                    name: String::from_str(p.item.name.as_str()),
                    value: clone_opt_string(&p.item.value),
                    variable_type: typ,
                    service,
                },
            );
            proof {
                let g = |v: EnvironmentVariable| env_full_view(v);
                assert(out@.map_values(g) =~= prev.map_values(g).push(
                    env_full_view(out@.last()),
                ));
            }
        }
        proof {
            let f = |p: PlannedVariable| entry_view(p);
            let g = |v: EnvironmentVariable| env_full_view(v);
            let t1 = plan@.take(i as int + 1).map_values(f);
            assert(t1.drop_last() =~= plan@.take(i as int).map_values(f));
            assert(t1.last() == entry_view(plan@[i as int]));
            assert(out@.map_values(g) =~= spec_env_typed_payload(t1, desired@, remote@));
        }
        i = i + 1;
    }
    proof {
        assert(plan@.take(n as int) =~= plan@);
    }
    out
}

/// The variable type and service behind one planned pipeline entry,
/// found as for environment variables, with the build service as the
/// fallback.
pub open spec fn spec_pipeline_meta(
    e: (Seq<char>, Option<Seq<char>>, bool, Option<int>, Option<int>, ReconciliationDecision),
    desired: Seq<PipelineVariable>,
    remote: Seq<PipelineVariable>,
) -> (VariableType, PipelineVariableServiceType) {
    let fallback = (
        if e.2 {
            VariableType::SecretString
        } else {
            VariableType::String
        },
        PipelineVariableServiceType::Build,
    );
    match e.3 {
        Option::Some(k) => if 0 <= k < desired.len() {
            (desired[k].variable_type, desired[k].service)
        } else {
            fallback
        },
        Option::None => match e.4 {
            Option::Some(j) => if 0 <= j < remote.len() {
                (remote[j].variable_type, remote[j].service)
            } else {
                fallback
            },
            Option::None => fallback,
        },
    }
}

/// The typed pipeline write-back payload.
pub open spec fn spec_pipeline_typed_payload(
    entries: Seq<
        (Seq<char>, Option<Seq<char>>, bool, Option<int>, Option<int>, ReconciliationDecision),
    >,
    desired: Seq<PipelineVariable>,
    remote: Seq<PipelineVariable>,
) -> Seq<(Seq<char>, Option<Seq<char>>, VariableType, PipelineVariableServiceType)>
    decreases entries.len(),
{
    if entries.len() == 0 {
        Seq::empty()
    } else {
        spec_pipeline_typed_payload(entries.drop_last(), desired, remote) + (if entries.last().5
            == ReconciliationDecision::Skip {
            Seq::empty()
        } else {
            seq![
                (
                    entries.last().0,
                    entries.last().1,
                    spec_pipeline_meta(entries.last(), desired, remote).0,
                    spec_pipeline_meta(entries.last(), desired, remote).1,
                ),
            ]
        })
    }
}

/// The plain view of one typed pipeline variable.
pub open spec fn pipeline_full_view(v: PipelineVariable) -> (
    Seq<char>,
    Option<Seq<char>>,
    VariableType,
    PipelineVariableServiceType,
) {
    (v.name@, opt_view(v.value), v.variable_type, v.service)
}

/// Rebuilds the typed pipeline variable payload from a plan.
pub fn pipeline_payload(
    plan: &Vec<PlannedVariable>,
    desired: &Vec<PipelineVariable>,
    remote: &Vec<PipelineVariable>,
) -> (r: Vec<PipelineVariable>)
    ensures
        r@.map_values(|v: PipelineVariable| pipeline_full_view(v)) == spec_pipeline_typed_payload(
            plan@.map_values(|p: PlannedVariable| entry_view(p)),
            desired@,
            remote@,
        ),
{
    let mut out: Vec<PipelineVariable> = Vec::new();
    let n = plan.len();
    let mut i: usize = 0;
    proof {
        assert(plan@.take(0).map_values(|p: PlannedVariable| entry_view(p)) =~= Seq::<
            (Seq<char>, Option<Seq<char>>, bool, Option<int>, Option<int>, ReconciliationDecision),
        >::empty());
        assert(out@.map_values(|v: PipelineVariable| pipeline_full_view(v))
            =~= spec_pipeline_typed_payload(
            plan@.take(0).map_values(|p: PlannedVariable| entry_view(p)),
            desired@,
            remote@,
        ));
    }
    while i < n
        invariant
            i <= n,
            n == plan@.len(),
            out@.map_values(|v: PipelineVariable| pipeline_full_view(v))
                == spec_pipeline_typed_payload(
                plan@.take(i as int).map_values(|p: PlannedVariable| entry_view(p)),
                desired@,
                remote@,
            ),
        decreases n - i,
    {
        let p = &plan[i];
        let ghost prev = out@;
        if p.decision != ReconciliationDecision::Skip {
            let fallback_type = if p.item.secret {
                VariableType::SecretString
            } else {
                VariableType::String
            };
            let (typ, service): (VariableType, PipelineVariableServiceType) = match p
                .desired_index {
                Option::Some(k) => {
                    if k < desired.len() {
                        (desired[k].variable_type, desired[k].service)
                    } else {
                        (fallback_type, PipelineVariableServiceType::Build)
                    }
                },
                Option::None => {
                    match p.remote_index {
                        Option::Some(j) => {
                            if j < remote.len() {
                                (remote[j].variable_type, remote[j].service)
                            } else {
                                (fallback_type, PipelineVariableServiceType::Build)
                            }
                        },
                        Option::None => (fallback_type, PipelineVariableServiceType::Build),
                    }
                },
            };
            out.push(
                PipelineVariable {
                    name: String::from_str(p.item.name.as_str()),
                    value: clone_opt_string(&p.item.value),
                    variable_type: typ,
                    service,
                },
            );
            proof {
                let g = |v: PipelineVariable| pipeline_full_view(v);
                assert(out@.map_values(g) =~= prev.map_values(g).push(
                    pipeline_full_view(out@.last()),
                ));
            }
        }
        proof {
            let f = |p: PlannedVariable| entry_view(p);
            let g = |v: PipelineVariable| pipeline_full_view(v);
            let t1 = plan@.take(i as int + 1).map_values(f);
            assert(t1.drop_last() =~= plan@.take(i as int).map_values(f));
            assert(t1.last() == entry_view(plan@[i as int]));
            assert(out@.map_values(g) =~= spec_pipeline_typed_payload(t1, desired@, remote@));
        }
        i = i + 1;
    }
    proof {
        assert(plan@.take(n as int) =~= plan@);
    }
    out
}

} // verus!
