//! Reconciliation of a bucket's lifecycle rule set: building a candidate
//! rule from operator input, recovering a baseline from the gateway read, and
//! upserting the candidate by rule id.
//!
//! Entries of a remote rule set are `(Option<String>, T)` pairs: the rule id
//! the remote store reports (absent ids never match an upsert) and an opaque
//! payload that is carried forward verbatim, so rules this tool never built
//! survive a reconciliation untouched.

use vstd::prelude::*;

use crate::strutil::str_eq;
use crate::transitions::Transition;
use crate::transitions::TransitionsError;
use crate::transitions::parse_transitions;
use crate::transitions::spec_first_unknown_class;
use crate::transitions::spec_parse_transitions;
use crate::transitions::spec_storage_class;

verus! {

/// A lifecycle rule as this tool builds it: an id, a prefix filter, an
/// enabled/disabled status, ordered transitions, and an optional expiration.
#[derive(Debug)]
pub struct LifecycleRule {
    pub id: String,
    pub prefix: String,
    pub enabled: bool,
    pub transitions: Vec<Transition>,
    pub expiration_days: Option<i32>,
}

/// The mathematical content of a lifecycle rule.
pub ghost struct RuleModel {
    pub id: Seq<char>,
    pub prefix: Seq<char>,
    pub enabled: bool,
    pub transitions: Seq<Transition>,
    pub expiration_days: Option<i32>,
}

impl View for LifecycleRule {
    type V = RuleModel;

    open spec fn view(&self) -> RuleModel {
        RuleModel {
            id: self.id@,
            prefix: self.prefix@,
            enabled: self.enabled,
            transitions: self.transitions@,
            expiration_days: self.expiration_days,
        }
    }
}

/// Why a lifecycle reconciliation failed.
#[derive(Debug)]
pub enum LifecycleError {
    /// The transition specification was rejected; no remote call is owed.
    Transitions(TransitionsError),
    /// The gateway read failed for a reason other than a missing
    /// configuration; holds the gateway's message.
    GatewayRead(String),
}

impl LifecycleError {
    /// A human-readable description of the failure.
    pub fn message(&self) -> (r: String)
        ensures
            self matches LifecycleError::Transitions(e) && e is InvalidJson ==> r@
                == "Invalid transitions JSON: malformed transition list"@,
            self matches LifecycleError::Transitions(TransitionsError::UnknownStorageClass(c))
                ==> r@ == "Invalid storage class: "@ + c@,
            self matches LifecycleError::GatewayRead(m) ==> r@
                == "Failed to get lifecycle config: "@ + m@,
    {
        match self {
            LifecycleError::Transitions(e) => e.message(),
            LifecycleError::GatewayRead(m) => {
                "Failed to get lifecycle config: ".to_owned().concat(m.as_str())
            },
        }
    }
}

/// Builds the candidate lifecycle rule from operator input, rejecting a bad
/// transition specification before any remote interaction. On success every
/// field of the rule is pinned: the given id, prefix and status, the decoded
/// transitions, and the expiration as given.
pub fn build_lifecycle_rule(
    rule_id: &str,
    prefix: &str,
    transitions_json: &str,
    expiration_days: Option<i32>,
    enabled: bool,
) -> (r: Result<LifecycleRule, LifecycleError>)
    ensures
        ({
            let sp = spec_parse_transitions(transitions_json@);
            &&& (r is Ok <==> (sp is Some && spec_first_unknown_class(sp.unwrap()) is None))
            &&& (sp is None <==> r matches Err(LifecycleError::Transitions(
                TransitionsError::InvalidJson,
            )))
            &&& (sp is Some && spec_first_unknown_class(sp.unwrap()) is Some ==> (r matches Err(
                LifecycleError::Transitions(TransitionsError::UnknownStorageClass(name)),
            ) && name@ == spec_first_unknown_class(sp.unwrap()).unwrap()))
            &&& (r matches Ok(rule) ==> {
                &&& rule@.id == rule_id@
                &&& rule@.prefix == prefix@
                &&& rule@.enabled == enabled
                &&& rule@.expiration_days == expiration_days
                &&& sp is Some
                &&& rule@.transitions.len() == sp.unwrap().len()
                &&& forall|k: int|
                    0 <= k < sp.unwrap().len() ==> (#[trigger] rule@.transitions[k]).days
                        == sp.unwrap()[k].0 && Some(rule@.transitions[k].storage_class)
                        == spec_storage_class(sp.unwrap()[k].1)
            })
        }),
{
    match parse_transitions(transitions_json) {
        Err(e) => Err(LifecycleError::Transitions(e)),
        Ok(ts) => Ok(
            LifecycleRule {
                id: rule_id.to_owned(),
                prefix: prefix.to_owned(),
                enabled,
                transitions: ts,
                expiration_days,
            },
        ),
    }
}

/// Whether a rule-set entry carries exactly the id `id`.
pub open spec fn id_matches<T>(p: (Option<Seq<char>>, T), id: Seq<char>) -> bool {
    match p.0 {
        Some(i) => i == id,
        None => false,
    }
}

/// The entries of `s` that do not carry the id `id`, in their original
/// order.
pub open spec fn keep_others<T>(s: Seq<(Option<Seq<char>>, T)>, id: Seq<char>) -> Seq<
    (Option<Seq<char>>, T),
>
    decreases s.len(),
{
    if s.len() == 0 {
        Seq::empty()
    } else if id_matches(s[0], id) {
        keep_others(s.drop_first(), id)
    } else {
        seq![s[0]] + keep_others(s.drop_first(), id)
    }
}

/// The reconciled rule set: every entry carrying the candidate's id is
/// removed, the untouched entries keep their order, and the candidate is
/// appended at the end.
pub open spec fn model_upsert<T>(
    s: Seq<(Option<Seq<char>>, T)>,
    id: Seq<char>,
    payload: T,
) -> Seq<(Option<Seq<char>>, T)> {
    keep_others(s, id).push((Some(id), payload))
}

/// The model of one stored entry: its id's character sequence and its
/// payload.
pub open spec fn pair_model<T>(p: (Option<String>, T)) -> (Option<Seq<char>>, T) {
    (
        match p.0 {
            Some(s) => Some(s@),
            None => None,
        },
        p.1,
    )
}

/// The model of a stored rule set.
pub open spec fn rules_model<T>(rules: Seq<(Option<String>, T)>) -> Seq<(Option<Seq<char>>, T)> {
    rules.map_values(|p: (Option<String>, T)| pair_model(p))
}

/// Removes every entry carrying `rule_id` and appends the candidate entry:
/// upsert keyed by rule id.
pub fn upsert_rule_set<T>(rules: Vec<(Option<String>, T)>, rule_id: &str, payload: T) -> (out: Vec<
    (Option<String>, T),
>)
    ensures
        rules_model(out@) == model_upsert(rules_model(rules@), rule_id@, payload),
{
    let ghost orig: Seq<(Option<String>, T)> = rules@;
    let mut rest = rules;
    let mut out: Vec<(Option<String>, T)> = Vec::new();
    proof {
        assert(rules_model(out@) + keep_others(rules_model(rest@), rule_id@) =~= keep_others(
            rules_model(orig),
            rule_id@,
        ));
    }
    while rest.len() > 0
        invariant
            keep_others(rules_model(orig), rule_id@) == rules_model(out@) + keep_others(
                rules_model(rest@),
                rule_id@,
            ),
        decreases rest.len(),
    {
        let ghost before = rest@;
        let p = rest.remove(0);
        proof {
            assert(rules_model(rest@) =~= rules_model(before).drop_first());
            assert(rules_model(before)[0] == pair_model(p));
        }
        let matches_id = match &p.0 {
            Some(s) => str_eq(s.as_str(), rule_id),
            None => false,
        };
        proof {
            assert(matches_id == id_matches(pair_model(p), rule_id@));
        }
        if !matches_id {
            let ghost out_before = out@;
            out.push(p);
            proof {
                assert(rules_model(out@) =~= rules_model(out_before).push(pair_model(p)));
                assert(rules_model(out_before).push(pair_model(p)) + keep_others(
                    rules_model(rest@),
                    rule_id@,
                ) =~= rules_model(out_before) + (seq![pair_model(p)] + keep_others(
                    rules_model(rest@),
                    rule_id@,
                )));
            }
        }
    }
    proof {
        assert(rules_model(rest@) =~= Seq::<(Option<Seq<char>>, T)>::empty());
        assert(rules_model(out@) + keep_others(rules_model(rest@), rule_id@) =~= rules_model(
            out@,
        ));
    }
    let candidate = (Some(rule_id.to_owned()), payload);
    let ghost out_before = out@;
    out.push(candidate);
    proof {
        assert(rules_model(out@) =~= rules_model(out_before).push((Some(rule_id@), payload)));
    }
    out
}

/// What the gateway read of a bucket's lifecycle configuration came back
/// with, as the unverified front end reports it.
pub enum LifecycleReadOutcome<T> {
    /// The bucket's current rule set.
    Rules(Vec<(Option<String>, T)>),
    /// The distinguished "no lifecycle configuration exists" condition.
    NoConfiguration,
    /// Any other read failure; holds the gateway's message.
    Failed(String),
}

/// Resolves the read outcome and reconciles the candidate into it: a missing
/// configuration is recovered as the empty baseline, a reported rule set is
/// upserted into, and every other read failure aborts the operation.
pub fn merge_lifecycle_rules<T>(
    read: LifecycleReadOutcome<T>,
    rule_id: &str,
    payload: T,
) -> (r: Result<Vec<(Option<String>, T)>, LifecycleError>)
    ensures
        r is Ok <==> !(read is Failed),
        (read matches LifecycleReadOutcome::Failed(m) ==> (r matches Err(
            LifecycleError::GatewayRead(em),
        ) && em == m)),
        (read matches LifecycleReadOutcome::Rules(v) ==> (r matches Ok(out) && rules_model(out@)
            == model_upsert(rules_model(v@), rule_id@, payload))),
        (read is NoConfiguration ==> (r matches Ok(out) && rules_model(out@) == model_upsert(
            Seq::empty(),
            rule_id@,
            payload,
        ))),
{
    match read {
        LifecycleReadOutcome::Failed(m) => Err(LifecycleError::GatewayRead(m)),
        LifecycleReadOutcome::NoConfiguration => {
            proof {
                assert(rules_model(Seq::<(Option<String>, T)>::empty()) =~= Seq::<
                    (Option<Seq<char>>, T),
                >::empty());
            }
            Ok(upsert_rule_set(Vec::new(), rule_id, payload))
        },
        LifecycleReadOutcome::Rules(v) => Ok(upsert_rule_set(v, rule_id, payload)),
    }
}

/// Appending an entry and then filtering by id is filtering first and then
/// appending the entry when it does not carry the id, or dropping it when it
/// does.
proof fn lemma_keep_others_push<T>(s: Seq<(Option<Seq<char>>, T)>, id: Seq<char>, e: (
    Option<Seq<char>>,
    T,
))
    ensures
        keep_others(s.push(e), id) == if id_matches(e, id) {
            keep_others(s, id)
        } else {
            keep_others(s, id).push(e)
        },
    decreases s.len(),
{
    if s.len() == 0 {
        assert(s.push(e)[0] == e);
        assert(s.push(e).drop_first() =~= Seq::<(Option<Seq<char>>, T)>::empty());
        assert(keep_others(Seq::<(Option<Seq<char>>, T)>::empty(), id) =~= Seq::<
            (Option<Seq<char>>, T),
        >::empty());
        assert(keep_others(s, id) =~= Seq::<(Option<Seq<char>>, T)>::empty());
        if id_matches(e, id) {
            assert(keep_others(s.push(e), id) =~= keep_others(s, id));
        } else {
            assert(seq![e] + Seq::<(Option<Seq<char>>, T)>::empty() =~= keep_others(
                s,
                id,
            ).push(e));
            assert(keep_others(s.push(e), id) =~= keep_others(s, id).push(e));
        }
    } else {
        assert(s.push(e)[0] == s[0]);
        assert(s.push(e).drop_first() =~= s.drop_first().push(e));
        lemma_keep_others_push(s.drop_first(), id, e);
        if !id_matches(s[0], id) && !id_matches(e, id) {
            assert(seq![s[0]] + keep_others(s.drop_first(), id).push(e) =~= (seq![s[0]]
                + keep_others(s.drop_first(), id)).push(e));
        }
    }
}

/// Filtering by id is idempotent.
proof fn lemma_keep_others_idempotent<T>(s: Seq<(Option<Seq<char>>, T)>, id: Seq<char>)
    ensures
        keep_others(keep_others(s, id), id) == keep_others(s, id),
    decreases s.len(),
{
    if s.len() > 0 {
        lemma_keep_others_idempotent(s.drop_first(), id);
        if !id_matches(s[0], id) {
            let k = keep_others(s.drop_first(), id);
            assert((seq![s[0]] + k).drop_first() =~= k);
            assert((seq![s[0]] + k)[0] == s[0]);
        }
    }
}

/// No entry that survives the filter carries the filtered id.
proof fn lemma_keep_others_no_match<T>(s: Seq<(Option<Seq<char>>, T)>, id: Seq<char>)
    ensures
        forall|k: int|
            0 <= k < keep_others(s, id).len() ==> !id_matches(
                #[trigger] keep_others(s, id)[k],
                id,
            ),
    decreases s.len(),
{
    if s.len() > 0 {
        lemma_keep_others_no_match(s.drop_first(), id);
        let k0 = keep_others(s.drop_first(), id);
        assert forall|k: int|
            0 <= k < keep_others(s, id).len() implies !id_matches(
            keep_others(s, id)[k],
            id,
        ) by {
            if id_matches(s[0], id) {
                assert(keep_others(s, id)[k] == k0[k]);
            } else if k == 0 {
                assert(keep_others(s, id)[0] == s[0]);
            } else {
                assert(keep_others(s, id)[k] == k0[k - 1]);
            }
        }
    }
}

/// Law: reconciling the same candidate twice yields exactly what reconciling
/// it once yields (upsert by id is idempotent).
pub proof fn lemma_upsert_idempotent<T>(s: Seq<(Option<Seq<char>>, T)>, id: Seq<char>, payload: T)
    ensures
        model_upsert(model_upsert(s, id, payload), id, payload) == model_upsert(s, id, payload),
{
    lemma_keep_others_push(keep_others(s, id), id, (Some(id), payload));
    lemma_keep_others_idempotent(s, id);
}

/// Law: reconciliation replaces by id. The reconciled set ends with exactly
/// the candidate entry, no other entry carries the candidate's id, and the
/// entries carrying other ids are exactly those of the baseline, in their
/// original order.
pub proof fn lemma_upsert_replaces<T>(s: Seq<(Option<Seq<char>>, T)>, id: Seq<char>, payload: T)
    ensures
        model_upsert(s, id, payload).len() == keep_others(s, id).len() + 1,
        model_upsert(s, id, payload).last() == (Some(id), payload),
        model_upsert(s, id, payload).drop_last() == keep_others(s, id),
        forall|k: int|
            0 <= k < model_upsert(s, id, payload).len() - 1 ==> !id_matches(
                #[trigger] model_upsert(s, id, payload)[k],
                id,
            ),
{
    assert(model_upsert(s, id, payload).drop_last() =~= keep_others(s, id));
    lemma_keep_others_no_match(s, id);
}

/// Law: against an empty baseline the reconciled set is exactly the
/// candidate entry.
pub proof fn lemma_upsert_on_empty<T>(id: Seq<char>, payload: T)
    ensures
        model_upsert(Seq::<(Option<Seq<char>>, T)>::empty(), id, payload) == seq![
            (Some(id), payload),
        ],
{
    assert(model_upsert(Seq::<(Option<Seq<char>>, T)>::empty(), id, payload) =~= seq![
        (Some(id), payload),
    ]);
}

} // verus!
