//! The package-capability layer: which principal acts, what the policy
//! decides for it, which audit records the decision leaves, and the denial a
//! refused operation gets. The engine's process state reaches the decisions
//! as a snapshot of plain values; the audit records are handed back to be
//! written.
use vstd::prelude::*;
use vstd::string::*;

use crate::dynamic::{
    auto_granted, constrained_spec, denial_remembered, denied_view, fresh_denial, grants_widen_at_most,
    may_write_allow, opt_cap, opt_req, principal_views, same_verdicts, DynamicDecider, DynamicPermissionState,
    DynamicQueryState, DynamicRequestCode, DynamicRequestEvaluation, DynamicRequestResult, EvaluationView, Policy,
    ResultView,
};
use crate::handle::{
    active_covers, insert_handle, pop_active, push_active, report_view, ActiveHandles, HandleEntry, HandleLookup,
    HandleTable, LookupView,
};
use crate::perms::{
    opt_str, BrokerResponse, ErrorView, NetPermissionAction, PermissionDeniedError, PermissionState, PromptResponse,
};
use crate::policy::{
    canonical, covers, covers_spec, grant_covers, parse_grant, grants_view, Capability, Decision, Family, Grant, Mode, Principal, PrincipalView, Request,
};
use crate::text::{
    concat, decimal, decimal_i32, find_char, first_index_of, hex32, hex32_string, parse_hex_u128, parsed_hex, starts_with,
    substring, to_owned, trim, trimmed,
};

verus! {

/// The engine profile this build implements.
pub open spec fn capsec_profile() -> Seq<char> {
    "oden/capsec/1.1"@
}

pub fn oden_capsec_profile() -> (r: &'static str)
    ensures
        r@ == capsec_profile(),
{
    "oden/capsec/1.1"
}

/// What the readiness report says before a capability decision.
pub struct Readiness {
    /// The policy's envelopes are invalid (a floor exceeds its ceiling).
    pub policy_invalid: bool,
    pub mode: Mode,
    /// The load-bearing prerequisites that are missing.
    pub missing: Vec<String>,
    /// The operator accepted the degraded state.
    pub advisory: bool,
    /// Why the policy could not be read, if it could not.
    pub policy_reason: Option<String>,
}

/// A snapshot of the engine state that capability decisions read.
pub struct CapsecState {
    /// A policy artifact armed the process.
    pub armed: bool,
    pub readiness: Readiness,
    /// The principal acting now.
    pub principal: Principal,
    /// Every principal implicated by the live call chain and scheduler.
    pub principal_set: Vec<Principal>,
    /// The capability classes armed for stack intersection.
    pub deputy_classes: Vec<String>,
    /// The audit channel has a control root.
    pub control_root: bool,
}

/// One audit record.
#[derive(Debug, PartialEq, Eq)]
pub struct AuditRecord {
    pub principal: String,
    pub family: String,
    pub action: String,
    pub target: String,
    pub verdict: String,
    pub suggestion: Option<String>,
}

pub struct RecordView {
    pub principal: Seq<char>,
    pub family: Seq<char>,
    pub action: Seq<char>,
    pub target: Seq<char>,
    pub verdict: Seq<char>,
    pub suggestion: Option<Seq<char>>,
}

impl View for AuditRecord {
    type V = RecordView;

    open spec fn view(&self) -> RecordView {
        RecordView {
            principal: self.principal@,
            family: self.family@,
            action: self.action@,
            target: self.target@,
            verdict: self.verdict@,
            suggestion: opt_str(self.suggestion),
        }
    }
}

pub open spec fn records_view(v: Seq<AuditRecord>) -> Seq<RecordView> {
    v.map_values(|r: AuditRecord| r@)
}

pub open spec fn record_spec(
    principal: Seq<char>,
    family: Seq<char>,
    action: Seq<char>,
    target: Seq<char>,
    verdict: Seq<char>,
    suggestion: Option<Seq<char>>,
) -> RecordView {
    RecordView { principal, family, action, target, verdict, suggestion }
}

pub(crate) fn record(principal: &str, family: &str, action: &str, target: &str, verdict: &str, suggestion: Option<String>) -> (r:
    AuditRecord)
    ensures
        r@ == record_spec(principal@, family@, action@, target@, verdict@, opt_str(suggestion)),
{
    AuditRecord {
        principal: to_owned(principal),
        family: to_owned(family),
        action: to_owned(action),
        target: to_owned(target),
        verdict: to_owned(verdict),
        suggestion,
    }
}

/// The decision class an audit record's verdict belongs to, by its prefix.
pub open spec fn decision_class(verdict: Seq<char>) -> Seq<char> {
    if "allow(ambient"@.is_prefix_of(verdict) {
        "allow-ambient"@
    } else if "allow(granted"@.is_prefix_of(verdict) {
        "allow-granted"@
    } else if "allow"@.is_prefix_of(verdict) {
        "allow"@
    } else if "audit"@.is_prefix_of(verdict) {
        "audit-record"@
    } else {
        "deny"@
    }
}

/// The decision class of `verdict` as the audit log writes it.
pub fn oden_audit_decision(verdict: &str) -> (r: &'static str)
    ensures
        r@ == decision_class(verdict@),
{
    if starts_with(verdict, "allow(ambient") {
        "allow-ambient"
    } else if starts_with(verdict, "allow(granted") {
        "allow-granted"
    } else if starts_with(verdict, "allow") {
        "allow"
    } else if starts_with(verdict, "audit") {
        "audit-record"
    } else {
        "deny"
    }
}

impl AuditRecord {
    /// The record's capability: `family:action`.
    pub fn capability(&self) -> (r: String)
        ensures
            r@ == self.family@ + ":"@ + self.action@,
    {
        let a = concat(self.family.as_str(), ":");
        concat(a.as_str(), self.action.as_str())
    }
}

/// How `<str as std::fmt::Debug>::fmt` writes `s`: quoted, with escapes.
pub uninterp spec fn debug_quoted(s: Seq<char>) -> Seq<char>;

/// Formats `s` with `std::fmt::Debug`; the text is named by `debug_quoted`.
#[verifier::external_body]
pub(crate) fn debug_str(s: &str) -> (r: String)
    ensures
        r@ == debug_quoted(s@),
{
    format!("{s:?}")
}

/// The strings of `parts` joined by `sep`.
pub open spec fn join_spec(parts: Seq<Seq<char>>, sep: Seq<char>) -> Seq<char>
    decreases parts.len(),
{
    if parts.len() == 0 {
        Seq::empty()
    } else if parts.len() == 1 {
        parts[0]
    } else {
        join_spec(parts.drop_last(), sep) + sep + parts.last()
    }
}

pub open spec fn strings_view(v: Seq<String>) -> Seq<Seq<char>> {
    v.map_values(|s: String| s@)
}

pub fn join(parts: &Vec<String>, sep: &str) -> (r: String)
    ensures
        r@ == join_spec(strings_view(parts@), sep@),
{
    let ghost pv = strings_view(parts@);
    let mut out = String::new();
    let mut i: usize = 0;
    while i < parts.len()
        invariant
            pv == strings_view(parts@),
            i <= parts@.len(),
            out@ == join_spec(pv.take(i as int), sep@),
        decreases parts@.len() - i,
    {
        assert(pv.take(i + 1).drop_last() =~= pv.take(i as int));
        if i > 0 {
            out.append(sep);
        }
        out.append(parts[i].as_str());
        proof {
            if i == 0 {
                assert(pv.take(1) =~= seq![pv[0]]);
                assert(out@ =~= pv[0]);
            }
        }
        i = i + 1;
    }
    assert(pv.take(parts@.len() as int) =~= pv);
    out
}

/// The readiness gate's refusal, if any: an invalid policy refuses
/// always; enforce refuses when a prerequisite is missing, unless the
/// operator accepted the degraded state.
pub open spec fn readiness_refusal(r: Readiness) -> Option<ErrorView> {
    if r.policy_invalid {
        Some(
            ErrorView {
                access: "capsec policy"@,
                name: "capsec"@,
                custom_message: Some(
                    "oden capsec: policy authority envelope is invalid (static floor exceeds escalation ceiling)"@,
                ),
                state: PermissionState::Denied,
            },
        )
    } else if r.mode == Mode::Enforce && r.missing@.len() > 0 && !r.advisory {
        Some(
            ErrorView {
                access: "capsec enforce"@,
                name: "capsec"@,
                custom_message: Some(
                    "oden capsec: enforce refuses to run — missing "@ + join_spec(strings_view(r.missing@), ", "@)
                        + ". Pass ODEN_CAPSEC_ALLOW_ADVISORY to accept the named degraded state."@ + match r.policy_reason {
                        Some(reason) => " Policy error: "@ + reason@ + "."@,
                        None => Seq::<char>::empty(),
                    },
                ),
                state: PermissionState::Denied,
            },
        )
    } else {
        None
    }
}

pub open spec fn err_view(r: Result<(), PermissionDeniedError>) -> Option<ErrorView> {
    match r {
        Ok(()) => None,
        Err(e) => Some(e@),
    }
}

/// Refuses every capability decision while the engine is not ready.
pub fn oden_capsec_readiness_gate(r: &Readiness) -> (res: Result<(), PermissionDeniedError>)
    ensures
        err_view(res) == readiness_refusal(*r),
{
    if r.policy_invalid {
        return Err(
            PermissionDeniedError {
                access: to_owned("capsec policy"),
                name: "capsec",
                custom_message: Some(
                    to_owned(
                        "oden capsec: policy authority envelope is invalid (static floor exceeds escalation ceiling)",
                    ),
                ),
                state: PermissionState::Denied,
            },
        );
    }
    if r.mode == Mode::Enforce && r.missing.len() > 0 && !r.advisory {
        let missing = join(&r.missing, ", ");
        let head = concat("oden capsec: enforce refuses to run — missing ", missing.as_str());
        let mut msg = concat(
            head.as_str(),
            ". Pass ODEN_CAPSEC_ALLOW_ADVISORY to accept the named degraded state.",
        );
        let ghost base = msg@;
        match &r.policy_reason {
            Some(reason) => {
                msg.append(" Policy error: ");
                msg.append(reason.as_str());
                msg.append(".");
                assert(msg@ =~= base + (" Policy error: "@ + reason@ + "."@));
            },
            None => {
                assert(msg@ =~= base + Seq::<char>::empty());
            },
        }
        return Err(
            PermissionDeniedError {
                access: to_owned("capsec enforce"),
                name: "capsec",
                custom_message: Some(msg),
                state: PermissionState::Denied,
            },
        );
    }
    Ok(())
}

/// Is `name` an environment variable of the engine's own control plane?
pub open spec fn control_env_name(name: Seq<char>) -> bool {
    "ODEN_CAPSEC_"@.is_prefix_of(name)
}

pub fn oden_capsec_is_control_env_name(name: &str) -> (r: bool)
    ensures
        r == control_env_name(name@),
{
    starts_with(name, "ODEN_CAPSEC_")
}

/// Does `req` reach the engine's control plane? An engine environment
/// variable does; a file-system request does when it targets the control
/// root, or covers every path while a control root exists.
pub open spec fn control_request(req: crate::policy::Capability, aggregate: bool, control_root: bool, in_control_root: bool) -> bool {
    (req.family == Family::Env && control_env_name(req.scope)) || (req.family == Family::Fs && ((aggregate
        && control_root) || in_control_root))
}

fn is_control_request(req: &Request, aggregate: bool, control_root: bool, in_control_root: bool) -> (r: bool)
    ensures
        r == control_request(req@, aggregate, control_root, in_control_root),
{
    (req.family == Family::Env && oden_capsec_is_control_env_name(req.target.as_str())) || (req.family == Family::Fs
        && ((aggregate && control_root) || in_control_root))
}

/// `s` up to its first `c`, or all of `s`.
pub open spec fn before_first(s: Seq<char>, c: char) -> Seq<char> {
    match first_index_of(s, c) {
        Some(i) => s.take(i),
        None => s,
    }
}

/// The number of `c` in `s`.
pub open spec fn count_char(s: Seq<char>, c: char) -> nat
    decreases s.len(),
{
    if s.len() == 0 {
        0
    } else {
        count_char(s.drop_last(), c) + if s.last() == c {
            1nat
        } else {
            0nat
        }
    }
}

fn before_first_exec(s: &str, c: char) -> (r: String)
    ensures
        r@ == before_first(s@, c),
{
    proof {
        crate::text::lemma_first_index_of(s@, c);
    }
    match find_char(s, c) {
        Some(i) => {
            let r = substring(s, 0, i);
            assert(r@ =~= s@.take(i as int));
            r
        },
        None => to_owned(s),
    }
}

fn count_char_exec(s: &str, c: char) -> (r: usize)
    ensures
        r == count_char(s@, c),
{
    let n = s.unicode_len();
    let mut k: usize = 0;
    let mut i: usize = 0;
    while i < n
        invariant
            n == s@.len(),
            i <= n,
            k == count_char(s@.take(i as int), c),
            k <= i,
        decreases n - i,
    {
        assert(s@.take(i + 1).drop_last() =~= s@.take(i as int));
        if s.get_char(i) == c {
            k = k + 1;
        }
        i = i + 1;
    }
    assert(s@.take(n as int) =~= s@);
    k
}

/// `s` without the prefix `p`, if it has it.
pub open spec fn strip_prefix_spec(s: Seq<char>, p: Seq<char>) -> Option<Seq<char>> {
    if p.is_prefix_of(s) {
        Some(s.skip(p.len() as int))
    } else {
        None
    }
}

fn strip_prefix(s: &str, p: &str) -> (r: Option<String>)
    ensures
        opt_str(r) == strip_prefix_spec(s@, p@),
{
    if starts_with(s, p) {
        let n = s.unicode_len();
        let m = p.unicode_len();
        let rest = substring(s, m, n);
        assert(rest@ =~= s@.skip(m as int));
        Some(rest)
    } else {
        None
    }
}

/// The host or endpoint of a network target, as a grant scope: URL and
/// `host:port` targets collapse to their host; `unix:` and `vsock:`
/// endpoints stay whole.
pub open spec fn host_of(target: Seq<char>) -> Seq<char> {
    if "unix:"@.is_prefix_of(target) || "vsock:"@.is_prefix_of(target) {
        target
    } else {
        let t0 = match strip_prefix_spec(target, "https://"@) {
            Some(t) => t,
            None => match strip_prefix_spec(target, "http://"@) {
                Some(t) => t,
                None => target,
            },
        };
        let t = before_first(t0, '/');
        if t.len() > 0 && t[0] == '[' && first_index_of(t.drop_first(), ']') is Some {
            "["@ + t.drop_first().take(first_index_of(t.drop_first(), ']')->0) + "]"@
        } else if count_char(t, ':') == 1 {
            before_first(t, ':')
        } else {
            t
        }
    }
}

pub fn oden_host_of(target: &str) -> (r: String)
    ensures
        r@ == host_of(target@),
{
    if starts_with(target, "unix:") || starts_with(target, "vsock:") {
        return to_owned(target);
    }
    let t0 = match strip_prefix(target, "https://") {
        Some(t) => t,
        None => match strip_prefix(target, "http://") {
            Some(t) => t,
            None => to_owned(target),
        },
    };
    let t = before_first_exec(t0.as_str(), '/');
    let n = t.as_str().unicode_len();
    if n > 0 && t.as_str().get_char(0) == '[' {
        let rest = substring(t.as_str(), 1, n);
        assert(rest@ =~= t@.drop_first());
        proof {
            crate::text::lemma_first_index_of(rest@, ']');
        }
        match find_char(rest.as_str(), ']') {
            Some(end) => {
                let inner = substring(rest.as_str(), 0, end);
                assert(inner@ =~= rest@.take(end as int));
                let a = concat("[", inner.as_str());
                return concat(a.as_str(), "]");
            },
            None => {},
        }
    }
    if count_char_exec(t.as_str(), ':') == 1 {
        return before_first_exec(t.as_str(), ':');
    }
    t
}

/// The grant token that would allow a refused operation, in the policy's
/// own grammar; ambient and no-user principals get none.
pub open spec fn suggested_token(p: PrincipalView, family: Family, action: Seq<char>, target: Seq<char>) -> Option<
    Seq<char>,
> {
    if p.is_ambient() || p == PrincipalView::NoUser {
        None
    } else {
        Some(
            match family {
                Family::Ffi => "ffi"@,
                Family::Run => "run:"@ + target,
                Family::Env => "env:"@ + action + ":"@ + target,
                Family::Fs => "fs:"@ + action + ":"@ + target,
                Family::Network => "network:"@ + action + ":"@ + host_of(target),
                Family::Sys => "sys:"@ + target,
                Family::Inspector => "inspector:activate"@,
            },
        )
    }
}

fn three(a: &str, b: &str, c: &str) -> (r: String)
    ensures
        r@ == a@ + b@ + c@,
{
    let x = concat(a, b);
    concat(x.as_str(), c)
}

pub fn oden_suggested_grant_token(principal: &Principal, family: Family, action: &str, target: &str) -> (r: Option<
    String,
>)
    ensures
        opt_str(r) == suggested_token(principal@, family, action@, target@),
{
    if principal.is_ambient() {
        return None;
    }
    match principal {
        Principal::NoUser => return None,
        _ => {},
    }
    let token = match family {
        Family::Ffi => to_owned("ffi"),
        Family::Run => concat("run:", target),
        Family::Env => {
            let a = three("env:", action, ":");
            concat(a.as_str(), target)
        },
        Family::Fs => {
            let a = three("fs:", action, ":");
            concat(a.as_str(), target)
        },
        Family::Network => {
            let a = three("network:", action, ":");
            let h = oden_host_of(target);
            concat(a.as_str(), h.as_str())
        },
        Family::Sys => concat("sys:", target),
        Family::Inspector => to_owned("inspector:activate"),
    };
    Some(token)
}

/// Is the class `family:action` armed for stack intersection?
pub open spec fn deputy_armed(classes: Seq<Seq<char>>, family: Family, action: Seq<char>) -> bool {
    exists|i: int|
        0 <= i < classes.len() && (classes[i] == "*"@ || classes[i] == family.spec_name() || classes[i]
            == family.spec_name() + ":"@ + action)
}

fn deputy_class_armed(classes: &Vec<String>, family: Family, action: &str) -> (r: bool)
    ensures
        r == deputy_armed(strings_view(classes@), family, action@),
{
    let ghost cv = strings_view(classes@);
    let fam = family.name();
    let fam_action = three(fam, ":", action);
    let mut i: usize = 0;
    while i < classes.len()
        invariant
            cv == strings_view(classes@),
            fam@ == family.spec_name(),
            fam_action@ == family.spec_name() + ":"@ + action@,
            i <= classes@.len(),
            forall|j: int|
                0 <= j < i ==> !(cv[j] == "*"@ || cv[j] == family.spec_name() || cv[j] == family.spec_name() + ":"@
                    + action@),
        decreases classes@.len() - i,
    {
        let c = classes[i].as_str();
        if crate::text::str_eq(c, "*") || crate::text::str_eq(c, fam) || crate::text::str_eq(c, fam_action.as_str()) {
            assert(cv[i as int] == classes@[i as int]@);
            return true;
        }
        i = i + 1;
    }
    false
}

/// The labels of `set`.
pub open spec fn labels_of(set: Seq<PrincipalView>) -> Seq<Seq<char>> {
    set.map_values(|p: PrincipalView| p.label_spec())
}

/// `label=token` for every member of `set` that the policy does not grant
/// `req` and that a grant could help.
pub open spec fn set_suggestions(policy: Policy, set: Seq<PrincipalView>, req: Capability, family: Family, action: Seq<char>) -> Seq<
    Seq<char>,
>
    decreases set.len(),
{
    if set.len() == 0 {
        Seq::empty()
    } else {
        let rest = set_suggestions(policy, set.drop_last(), req, family, action);
        let p = set.last();
        if !policy.grants_spec(p, req) && suggested_token(p, family, action, req.scope) is Some {
            rest.push(p.label_spec() + "="@ + suggested_token(p, family, action, req.scope)->0)
        } else {
            rest
        }
    }
}

/// The verdict word of an audit record.
pub open spec fn verdict_of(decision: Decision, ambient_allow: bool) -> Seq<char> {
    match decision {
        Decision::Allow => if ambient_allow {
            "allow(ambient)"@
        } else {
            "allow(granted)"@
        },
        Decision::AllowRecord => "audit(record)"@,
        Decision::Deny => "DENY(no grant)"@,
    }
}

/// The acting principal: the one named, or the one the engine resolved.
pub open spec fn acting(state: CapsecState, explicit: Option<Principal>) -> PrincipalView {
    match explicit {
        Some(p) => p@,
        None => state.principal@,
    }
}

/// The set decided over instead of the acting principal: when the class is
/// armed for stack intersection and more than one constrained principal is
/// implicated.
pub open spec fn intersection(state: CapsecState, family: Family, action: Seq<char>, explicit: Option<Principal>) -> Option<
    Seq<PrincipalView>,
> {
    let set = constrained_spec(principal_views(state.principal_set@));
    if explicit is None && deputy_armed(strings_view(state.deputy_classes@), family, action) && set.len() >= 2 {
        Some(set)
    } else {
        None
    }
}

/// The decision, the label it is recorded under, whether it is an ambient
/// allow, and the grant it suggests.
pub open spec fn decision_of(
    state: CapsecState,
    policy: Policy,
    req: Capability,
    family: Family,
    action: Seq<char>,
    explicit: Option<Principal>,
) -> (Decision, Seq<char>, bool, Option<Seq<char>>) {
    match intersection(state, family, action, explicit) {
        Some(set) => {
            let decision = if policy.all_granted(set, req) {
                Decision::Allow
            } else {
                policy.fallback()
            };
            let toks = set_suggestions(policy, set, req, family, action);
            (
                decision,
                "["@ + join_spec(labels_of(set), ","@) + "]"@,
                false,
                if toks.len() > 0 {
                    Some(join_spec(toks, " ; "@))
                } else {
                    None
                },
            )
        },
        None => {
            let p = acting(state, explicit);
            let decision = policy.decide_spec(p, req);
            let suggestion = if decision == Decision::Deny || (decision == Decision::AllowRecord && !p.is_ambient()) {
                suggested_token(p, family, action, req.scope)
            } else {
                None
            };
            (decision, p.label_spec(), p.is_ambient() && decision == Decision::Allow, suggestion)
        },
    }
}

/// The capability decision for `family:action` on `target` (normalized to
/// `normalized`), and the audit records it leaves.
pub open spec fn decide_spec(
    state: CapsecState,
    policy: Policy,
    window: ActiveHandles,
    family: Family,
    action: Seq<char>,
    target: Seq<char>,
    normalized: Seq<char>,
    in_control_root: bool,
    api_name: Option<Seq<char>>,
    aggregate: bool,
    explicit: Option<Principal>,
) -> (Option<ErrorView>, Seq<RecordView>) {
    let req = Capability { family, action, scope: normalized };
    if !state.armed {
        (None, Seq::empty())
    } else if readiness_refusal(state.readiness) is Some {
        (readiness_refusal(state.readiness), Seq::empty())
    } else if control_request(req, aggregate, state.control_root, in_control_root) {
        (
            Some(
                ErrorView {
                    access: "capsec control-plane access to "@ + debug_quoted(normalized),
                    name: "capsec"@,
                    custom_message: Some("oden capsec: the engine policy and audit channel are not package authority"@),
                    state: PermissionState::Denied,
                },
            ),
            seq![
                record_spec(
                    acting(state, explicit).label_spec(),
                    family.spec_name(),
                    action,
                    normalized,
                    "DENY(control plane)"@,
                    None,
                ),
            ],
        )
    } else {
        let (decision, label, ambient_allow, suggestion) = decision_of(state, policy, req, family, action, explicit);
        if explicit is None && decision == Decision::Deny && covers_spec(grants_view(window.stack@), req) {
            (None, seq![record_spec(label, family.spec_name(), action, normalized, "allow(handle)"@, None)])
        } else {
            let rec = record_spec(
                label,
                family.spec_name(),
                action,
                normalized,
                verdict_of(decision, ambient_allow),
                suggestion,
            );
            if decision == Decision::Deny {
                let api = match api_name {
                    Some(a) => a,
                    None => family.spec_name(),
                };
                let fix = match suggestion {
                    Some(t) => " — to allow: grant \""@ + label + "\" `"@ + t + "`"@,
                    None => Seq::empty(),
                };
                (
                    Some(
                        ErrorView {
                            access: api + " access to "@ + debug_quoted(target),
                            name: "capsec"@,
                            custom_message: Some(
                                "oden capsec: principal \""@ + label + "\" is not granted "@ + family.spec_name() + ":"@
                                    + action + ":"@ + target + fix,
                            ),
                            state: PermissionState::Denied,
                        },
                    ),
                    seq![rec],
                )
            } else {
                (None, seq![rec])
            }
        }
    }
}

/// The labels of `set`, exactly.
fn labels(set: &Vec<Principal>) -> (r: Vec<String>)
    ensures
        strings_view(r@) == labels_of(principal_views(set@)),
{
    let mut out: Vec<String> = Vec::new();
    let mut i: usize = 0;
    while i < set.len()
        invariant
            i <= set@.len(),
            strings_view(out@) == labels_of(principal_views(set@)).take(i as int),
        decreases set@.len() - i,
    {
        let ghost before = strings_view(out@);
        out.push(set[i].label());
        assert(strings_view(out@) =~= before.push(set@[i as int]@.label_spec()));
        assert(labels_of(principal_views(set@)).take(i + 1) =~= labels_of(principal_views(set@)).take(i as int).push(
            set@[i as int]@.label_spec(),
        ));
        i = i + 1;
    }
    assert(labels_of(principal_views(set@)).take(set@.len() as int) =~= labels_of(principal_views(set@)));
    out
}

/// The grant suggestions for the members of `set` the policy does not
/// grant.
fn suggestions(policy: &Policy, set: &Vec<Principal>, req: &Request, family: Family, action: &str) -> (r: Vec<String>)
    requires
        policy.wf(),
    ensures
        strings_view(r@) == set_suggestions(*policy, principal_views(set@), req@, family, action@),
{
    let ghost sv = principal_views(set@);
    let mut out: Vec<String> = Vec::new();
    let mut i: usize = 0;
    while i < set.len()
        invariant
            policy.wf(),
            sv == principal_views(set@),
            i <= set@.len(),
            strings_view(out@) == set_suggestions(*policy, sv.take(i as int), req@, family, action@),
        decreases set@.len() - i,
    {
        assert(sv.take(i + 1).drop_last() =~= sv.take(i as int));
        assert(sv.take(i + 1).last() == set@[i as int]@);
        let p = &set[i];
        if !policy.grants(p, req) {
            match oden_suggested_grant_token(p, family, action, req.target.as_str()) {
                Some(t) => {
                    let ghost before = strings_view(out@);
                    let l = p.label();
                    let a = concat(l.as_str(), "=");
                    out.push(concat(a.as_str(), t.as_str()));
                    assert(strings_view(out@) =~= before.push(p@.label_spec() + "="@ + t@));
                },
                None => {},
            }
        }
        i = i + 1;
    }
    assert(sv.take(set@.len() as int) =~= sv);
    out
}

fn verdict(decision: Decision, ambient_allow: bool) -> (r: &'static str)
    ensures
        r@ == verdict_of(decision, ambient_allow),
{
    match decision {
        Decision::Allow => if ambient_allow {
            "allow(ambient)"
        } else {
            "allow(granted)"
        },
        Decision::AllowRecord => "audit(record)",
        Decision::Deny => "DENY(no grant)",
    }
}

pub open spec fn opt_principal(p: Option<&Principal>) -> Option<Principal> {
    match p {
        Some(x) => Some(*x),
        None => None,
    }
}

/// The capability decision for an operation: refuses the control plane,
/// decides over the acting principal (or over the implicated set when the
/// class is armed for stack intersection), lets an active handle rescue a
/// denial, and records the verdict.
pub fn oden_capsec_decide_inner(
    state: &CapsecState,
    policy: &Policy,
    window: &ActiveHandles,
    family: Family,
    action: &str,
    target: &str,
    normalized_target: &str,
    in_control_root: bool,
    api_name: Option<&str>,
    aggregate: bool,
    explicit_principal: Option<&Principal>,
) -> (r: (Result<(), PermissionDeniedError>, Vec<AuditRecord>))
    requires
        policy.wf(),
    ensures
        (err_view(r.0), records_view(r.1@)) == decide_spec(
            *state,
            *policy,
            *window,
            family,
            action@,
            target@,
            normalized_target@,
            in_control_root,
            opt_str_ref(api_name),
            aggregate,
            opt_principal(explicit_principal),
        ),
{
    let ghost ex = opt_principal(explicit_principal);
    if !state.armed {
        let none: Vec<AuditRecord> = Vec::new();
        assert(records_view(none@) =~= Seq::<RecordView>::empty());
        return (Ok(()), none);
    }
    match oden_capsec_readiness_gate(&state.readiness) {
        Err(e) => {
            let none: Vec<AuditRecord> = Vec::new();
            assert(records_view(none@) =~= Seq::<RecordView>::empty());
            return (Err(e), none);
        },
        Ok(()) => {},
    }
    let req = Request { family, action: to_owned(action), target: to_owned(normalized_target) };
    let fam = family.name();
    if is_control_request(&req, aggregate, state.control_root, in_control_root) {
        let label = match explicit_principal {
            Some(p) => p.label(),
            None => state.principal.label(),
        };
        let rec = record(label.as_str(), fam, action, normalized_target, "DENY(control plane)", None);
        let mut records = Vec::new();
        records.push(rec);
        let err = PermissionDeniedError {
            access: concat("capsec control-plane access to ", debug_str(normalized_target).as_str()),
            name: "capsec",
            custom_message: Some(to_owned("oden capsec: the engine policy and audit channel are not package authority")),
            state: PermissionState::Denied,
        };
        assert(records_view(records@) =~= seq![records@[0]@]);
        return (Err(err), records);
    }
    let set = if explicit_principal.is_none() && deputy_class_armed(&state.deputy_classes, family, action) {
        let constrained = Policy::constrained_principals(state.principal_set.as_slice());
        if constrained.len() >= 2 {
            Some(constrained)
        } else {
            None
        }
    } else {
        None
    };
    assert(set matches Some(v) ==> intersection(*state, family, action@, ex) == Some(principal_views(v@)));
    assert(set is None ==> intersection(*state, family, action@, ex) is None);
    let (decision, label, ambient_allow, suggestion) = match &set {
        Some(members) => {
            let decision = policy.decide_set(members.as_slice(), &req);
            let names = labels(members);
            let joined = join(&names, ",");
            let a = concat("[", joined.as_str());
            let label = concat(a.as_str(), "]");
            let toks = suggestions(policy, members, &req, family, action);
            let suggestion = if toks.len() > 0 {
                Some(join(&toks, " ; "))
            } else {
                None
            };
            (decision, label, false, suggestion)
        },
        None => {
            let principal = match explicit_principal {
                Some(p) => p,
                None => &state.principal,
            };
            let decision = policy.decide(principal, &req);
            let ambient = principal.is_ambient();
            let suggestion = if decision == Decision::Deny || (decision == Decision::AllowRecord && !ambient) {
                oden_suggested_grant_token(principal, family, action, normalized_target)
            } else {
                None
            };
            (decision, principal.label(), ambient && decision == Decision::Allow, suggestion)
        },
    };
    assert((decision, label@, ambient_allow, opt_str(suggestion)) == decision_of(*state, *policy, req@, family, action@, ex));
    if explicit_principal.is_none() && decision == Decision::Deny && active_covers(window, &req) {
        let rec = record(label.as_str(), fam, action, normalized_target, "allow(handle)", None);
        let mut records = Vec::new();
        records.push(rec);
        assert(records_view(records@) =~= seq![records@[0]@]);
        return (Ok(()), records);
    }
    let ghost sv = opt_str(suggestion);
    let fix = match &suggestion {
        Some(t) => {
            let a = three(" — to allow: grant \"", label.as_str(), "\" `");
            three(a.as_str(), t.as_str(), "`")
        },
        None => String::new(),
    };
    let rec = record(label.as_str(), fam, action, normalized_target, verdict(decision, ambient_allow), suggestion);
    let mut records = Vec::new();
    records.push(rec);
    assert(records_view(records@) =~= seq![records@[0]@]);
    if decision == Decision::Deny {
        let api = match api_name {
            Some(a) => a,
            None => fam,
        };
        let access = three(api, " access to ", debug_str(target).as_str());
        let m1 = three("oden capsec: principal \"", label.as_str(), "\" is not granted ");
        let m2 = three(m1.as_str(), fam, ":");
        let m3 = three(m2.as_str(), action, ":");
        let m4 = three(m3.as_str(), target, fix.as_str());
        proof {
            match sv {
                Some(t) => {
                    assert(fix@ =~= " — to allow: grant \""@ + label@ + "\" `"@ + t + "`"@);
                },
                None => {
                    assert(fix@ =~= Seq::<char>::empty());
                },
            }
        }
        let err = PermissionDeniedError { access, name: "capsec", custom_message: Some(m4), state: PermissionState::Denied };
        return (Err(err), records);
    }
    (Ok(()), records)
}

pub open spec fn opt_str_ref(o: Option<&str>) -> Option<Seq<char>> {
    match o {
        Some(s) => Some(s@),
        None => None,
    }
}

/// Is the process armed?
pub fn oden_capsec_armed(state: &CapsecState) -> (r: bool)
    ensures
        r == state.armed,
{
    state.armed
}

/// Is the process armed with exactly the engine profile `profile`?
pub fn oden_capsec_profile_is(state: &CapsecState, profile: &str) -> (r: bool)
    ensures
        r == (profile@ == capsec_profile() && state.armed),
{
    crate::text::str_eq(profile, "oden/capsec/1.1") && state.armed
}

pub(crate) fn capsec_denial(access: String, message: String) -> (r: PermissionDeniedError)
    ensures
        r@ == (ErrorView { access: access@, name: "capsec"@, custom_message: Some(message@), state: PermissionState::Denied }),
{
    PermissionDeniedError { access, name: "capsec", custom_message: Some(message), state: PermissionState::Denied }
}

pub open spec fn capsec_error(access: Seq<char>, message: Seq<char>) -> ErrorView {
    ErrorView { access, name: "capsec"@, custom_message: Some(message), state: PermissionState::Denied }
}

pub(crate) fn one(rec: AuditRecord) -> (r: Vec<AuditRecord>)
    ensures
        records_view(r@) == seq![rec@],
{
    let mut v = Vec::new();
    v.push(rec);
    assert(records_view(v@) =~= seq![rec@]);
    v
}

pub(crate) fn none() -> (r: Vec<AuditRecord>)
    ensures
        records_view(r@) == Seq::<RecordView>::empty(),
{
    let v: Vec<AuditRecord> = Vec::new();
    assert(records_view(v@) =~= Seq::<RecordView>::empty());
    v
}

/// The decision on a security-sensitive surface that has no grant grammar:
/// packages are denied under enforce and recorded under audit; ambient
/// principals and permissive mode pass.
pub open spec fn guard_surface_spec(state: CapsecState, family: Seq<char>, action: Seq<char>, target: Seq<char>, api_name: Seq<char>) -> (
    Option<ErrorView>,
    Seq<RecordView>,
) {
    let p = state.principal@;
    let mode = state.readiness.mode;
    if !state.armed {
        (None, Seq::empty())
    } else if readiness_refusal(state.readiness) is Some {
        (readiness_refusal(state.readiness), Seq::empty())
    } else if p.is_ambient() || mode == Mode::Permissive {
        (None, Seq::empty())
    } else if mode == Mode::Enforce {
        (
            Some(
                capsec_error(
                    api_name + " access to "@ + debug_quoted(target),
                    "oden capsec: principal \""@ + p.label_spec() + "\" may not use default-closed "@ + family + ":"@
                        + action + ":"@ + target,
                ),
            ),
            seq![record_spec(p.label_spec(), family, action, target, "DENY(default-closed surface)"@, None)],
        )
    } else {
        (None, seq![record_spec(p.label_spec(), family, action, target, "audit(record)"@, None)])
    }
}

pub fn oden_capsec_guard_surface(state: &CapsecState, family: &str, action: &str, target: &str, api_name: &str) -> (r: (
    Result<(), PermissionDeniedError>,
    Vec<AuditRecord>,
))
    ensures
        (err_view(r.0), records_view(r.1@)) == guard_surface_spec(*state, family@, action@, target@, api_name@),
{
    if !state.armed {
        return (Ok(()), none());
    }
    match oden_capsec_readiness_gate(&state.readiness) {
        Err(e) => return (Err(e), none()),
        Ok(()) => {},
    }
    let label = state.principal.label();
    if state.principal.is_ambient() || state.readiness.mode == Mode::Permissive {
        return (Ok(()), none());
    }
    if state.readiness.mode == Mode::Enforce {
        let rec = record(label.as_str(), family, action, target, "DENY(default-closed surface)", None);
        let access = three(api_name, " access to ", debug_str(target).as_str());
        let m1 = three("oden capsec: principal \"", label.as_str(), "\" may not use default-closed ");
        let m2 = three(m1.as_str(), family, ":");
        let m3 = three(m2.as_str(), action, ":");
        let m4 = concat(m3.as_str(), target);
        return (Err(capsec_denial(access, m4)), one(rec));
    }
    let rec = record(label.as_str(), family, action, target, "audit(record)", None);
    (Ok(()), one(rec))
}

/// Forward proxies are refused while the profile is armed: this profile
/// cannot attest the final peer behind a proxy.
pub open spec fn forward_proxy_spec(state: CapsecState, api_name: Seq<char>) -> (Option<ErrorView>, Seq<RecordView>) {
    if !state.armed {
        (None, Seq::empty())
    } else if readiness_refusal(state.readiness) is Some {
        (readiness_refusal(state.readiness), Seq::empty())
    } else {
        (
            Some(
                capsec_error(
                    api_name + " forward-proxy access"@,
                    "oden capsec: forward proxies are closed because this profile has no authenticated final-peer attestation"@,
                ),
            ),
            seq![
                record_spec(
                    state.principal@.label_spec(),
                    "network"@,
                    "forward-proxy"@,
                    "unattested"@,
                    "DENY(unattested final peer)"@,
                    None,
                ),
            ],
        )
    }
}

pub fn oden_capsec_reject_forward_proxy(state: &CapsecState, api_name: &str) -> (r: (
    Result<(), PermissionDeniedError>,
    Vec<AuditRecord>,
))
    ensures
        (err_view(r.0), records_view(r.1@)) == forward_proxy_spec(*state, api_name@),
{
    if !oden_capsec_profile_is(state, oden_capsec_profile()) {
        return (Ok(()), none());
    }
    match oden_capsec_readiness_gate(&state.readiness) {
        Err(e) => return (Err(e), none()),
        Ok(()) => {},
    }
    let label = state.principal.label();
    let rec = record(label.as_str(), "network", "forward-proxy", "unattested", "DENY(unattested final peer)", None);
    let access = concat(api_name, " forward-proxy access");
    let msg = to_owned(
        "oden capsec: forward proxies are closed because this profile has no authenticated final-peer attestation",
    );
    (Err(capsec_denial(access, msg)), one(rec))
}

/// One deny record per label.
pub open spec fn deny_records(labels: Seq<Seq<char>>, family: Seq<char>, action: Seq<char>, target: Seq<char>, verdict: Seq<char>) -> Seq<
    RecordView,
> {
    labels.map_values(|l: Seq<char>| record_spec(l, family, action, target, verdict, None))
}

/// A deny-only surface refuses every constrained principal implicated.
pub open spec fn deny_only_spec(state: CapsecState, family: Seq<char>, action: Seq<char>, target: Seq<char>, api_name: Seq<char>) -> (
    Option<ErrorView>,
    Seq<RecordView>,
) {
    let set = constrained_spec(principal_views(state.principal_set@));
    if !state.armed {
        (None, Seq::empty())
    } else if readiness_refusal(state.readiness) is Some {
        (readiness_refusal(state.readiness), Seq::empty())
    } else if set.len() == 0 {
        (None, Seq::empty())
    } else {
        (
            Some(
                capsec_error(
                    api_name + " access to "@ + debug_quoted(target),
                    "oden capsec: principal set ["@ + join_spec(labels_of(set), ","@) + "] may not use deny-only "@
                        + family + ":"@ + action + ":"@ + target,
                ),
            ),
            deny_records(labels_of(set), family, action, target, "DENY(deny-only surface)"@),
        )
    }
}

fn records_for(labels: &Vec<String>, family: &str, action: &str, target: &str, verdict: &str) -> (r: Vec<AuditRecord>)
    ensures
        records_view(r@) == deny_records(strings_view(labels@), family@, action@, target@, verdict@),
{
    let ghost lv = strings_view(labels@);
    let mut out: Vec<AuditRecord> = Vec::new();
    let mut i: usize = 0;
    while i < labels.len()
        invariant
            lv == strings_view(labels@),
            i <= labels@.len(),
            records_view(out@) == deny_records(lv.take(i as int), family@, action@, target@, verdict@),
        decreases labels@.len() - i,
    {
        let ghost before = records_view(out@);
        out.push(record(labels[i].as_str(), family, action, target, verdict, None));
        assert(records_view(out@) =~= before.push(record_spec(lv[i as int], family@, action@, target@, verdict@, None)));
        assert(deny_records(lv.take(i + 1), family@, action@, target@, verdict@) =~= deny_records(
            lv.take(i as int),
            family@,
            action@,
            target@,
            verdict@,
        ).push(record_spec(lv[i as int], family@, action@, target@, verdict@, None)));
        i = i + 1;
    }
    assert(lv.take(labels@.len() as int) =~= lv);
    out
}

pub fn oden_capsec_guard_deny_only_surface(state: &CapsecState, family: &str, action: &str, target: &str, api_name: &str) -> (r: (
    Result<(), PermissionDeniedError>,
    Vec<AuditRecord>,
))
    ensures
        (err_view(r.0), records_view(r.1@)) == deny_only_spec(*state, family@, action@, target@, api_name@),
{
    if !oden_capsec_profile_is(state, oden_capsec_profile()) {
        return (Ok(()), none());
    }
    match oden_capsec_readiness_gate(&state.readiness) {
        Err(e) => return (Err(e), none()),
        Ok(()) => {},
    }
    let constrained = Policy::constrained_principals(state.principal_set.as_slice());
    if constrained.len() == 0 {
        return (Ok(()), none());
    }
    let names = labels(&constrained);
    let recs = records_for(&names, family, action, target, "DENY(deny-only surface)");
    let joined = join(&names, ",");
    let access = three(api_name, " access to ", debug_str(target).as_str());
    let m1 = three("oden capsec: principal set [", joined.as_str(), "] may not use deny-only ");
    let m2 = three(m1.as_str(), family, ":");
    let m3 = three(m2.as_str(), action, ":");
    let m4 = concat(m3.as_str(), target);
    (Err(capsec_denial(access, m4)), recs)
}

/// The root half of a conjunctive effect: refused like a deny-only surface
/// when a constrained principal is implicated, recorded as an ambient allow
/// otherwise.
pub open spec fn root_ambient_spec(state: CapsecState, family: Seq<char>, action: Seq<char>, target: Seq<char>, api_name: Seq<char>) -> (
    Option<ErrorView>,
    Seq<RecordView>,
) {
    let d = deny_only_spec(state, family, action, target, api_name);
    if d.0 is Some {
        d
    } else if state.armed {
        (None, seq![record_spec("root/runtime"@, family, action, target, "allow(ambient)"@, None)])
    } else {
        (None, Seq::empty())
    }
}

pub fn oden_capsec_record_root_ambient_effect(state: &CapsecState, family: &str, action: &str, target: &str, api_name: &str) -> (r: (
    Result<(), PermissionDeniedError>,
    Vec<AuditRecord>,
))
    ensures
        (err_view(r.0), records_view(r.1@)) == root_ambient_spec(*state, family@, action@, target@, api_name@),
{
    let (first, recs) = oden_capsec_guard_deny_only_surface(state, family, action, target, api_name);
    match first {
        Err(e) => return (Err(e), recs),
        Ok(()) => {},
    }
    if oden_capsec_profile_is(state, oden_capsec_profile()) {
        let rec = record("root/runtime", family, action, target, "allow(ambient)", None);
        return (Ok(()), one(rec));
    }
    (Ok(()), none())
}

/// A local inspector session created by the host itself is trusted
/// runtime control: recorded for `runtime:inspect` and `inspector:activate`.
pub open spec fn runtime_inspector_spec(state: CapsecState, target: Seq<char>) -> (Option<ErrorView>, Seq<RecordView>) {
    if !state.armed {
        (None, Seq::empty())
    } else if readiness_refusal(state.readiness) is Some {
        (readiness_refusal(state.readiness), Seq::empty())
    } else {
        (
            None,
            seq![
                record_spec("root/runtime"@, "runtime"@, "inspect"@, target, "allow(trusted host)"@, None),
                record_spec("root/runtime"@, "inspector"@, "activate"@, target, "allow(trusted host)"@, None),
            ],
        )
    }
}

pub fn oden_capsec_check_runtime_local_inspector_session(state: &CapsecState, target: &str) -> (r: (
    Result<(), PermissionDeniedError>,
    Vec<AuditRecord>,
))
    ensures
        (err_view(r.0), records_view(r.1@)) == runtime_inspector_spec(*state, target@),
{
    if !oden_capsec_profile_is(state, oden_capsec_profile()) {
        return (Ok(()), none());
    }
    match oden_capsec_readiness_gate(&state.readiness) {
        Err(e) => return (Err(e), none()),
        Ok(()) => {},
    }
    let mut recs = Vec::new();
    recs.push(record("root/runtime", "runtime", "inspect", target, "allow(trusted host)", None));
    recs.push(record("root/runtime", "inspector", "activate", target, "allow(trusted host)", None));
    assert(records_view(recs@) =~= seq![recs@[0]@, recs@[1]@]);
    (Ok(()), recs)
}

/// One record per label, each with the same effect, verdict and suggestion.
pub open spec fn labeled_records(
    labels: Seq<Seq<char>>,
    family: Seq<char>,
    action: Seq<char>,
    target: Seq<char>,
    verdict: Seq<char>,
    suggestion: Option<Seq<char>>,
) -> Seq<RecordView> {
    labels.map_values(|l: Seq<char>| record_spec(l, family, action, target, verdict, suggestion))
}

fn records_with(labels: &Vec<String>, family: &str, action: &str, target: &str, verdict: &str, suggestion: Option<&str>) -> (r:
    Vec<AuditRecord>)
    ensures
        records_view(r@) == labeled_records(strings_view(labels@), family@, action@, target@, verdict@, opt_str_ref(suggestion)),
{
    let ghost lv = strings_view(labels@);
    let ghost sv = opt_str_ref(suggestion);
    let mut out: Vec<AuditRecord> = Vec::new();
    let mut i: usize = 0;
    while i < labels.len()
        invariant
            lv == strings_view(labels@),
            sv == opt_str_ref(suggestion),
            i <= labels@.len(),
            records_view(out@) == labeled_records(lv.take(i as int), family@, action@, target@, verdict@, sv),
        decreases labels@.len() - i,
    {
        let ghost before = records_view(out@);
        let owned = match suggestion {
            Some(t) => Some(to_owned(t)),
            None => None,
        };
        out.push(record(labels[i].as_str(), family, action, target, verdict, owned));
        assert(records_view(out@) =~= before.push(record_spec(lv[i as int], family@, action@, target@, verdict@, sv)));
        assert(labeled_records(lv.take(i + 1), family@, action@, target@, verdict@, sv) =~= labeled_records(
            lv.take(i as int),
            family@,
            action@,
            target@,
            verdict@,
            sv,
        ).push(record_spec(lv[i as int], family@, action@, target@, verdict@, sv)));
        i = i + 1;
    }
    assert(lv.take(labels@.len() as int) =~= lv);
    out
}

/// The labels a runtime-wide effect is recorded under: the constrained
/// principals, or the runtime itself when none is implicated.
pub open spec fn labels_or_root(set: Seq<PrincipalView>) -> Seq<Seq<char>> {
    if set.len() == 0 {
        seq!["root/runtime"@]
    } else {
        labels_of(set)
    }
}

fn audit_labels(constrained: &Vec<Principal>) -> (r: Vec<String>)
    ensures
        strings_view(r@) == labels_or_root(principal_views(constrained@)),
{
    if constrained.len() == 0 {
        let mut v: Vec<String> = Vec::new();
        v.push(to_owned("root/runtime"));
        assert(strings_view(v@) =~= seq!["root/runtime"@]);
        v
    } else {
        labels(constrained)
    }
}

/// Passing a raw descriptor is refused when it is an INET stream socket,
/// or when its kind could not be established (`classified` is the native
/// classification: `Ok(true)` for an INET stream, or why it failed).
pub open spec fn raw_fd_spec(state: CapsecState, fd: int, api_name: Seq<char>, classified: Result<bool, Seq<char>>) -> (
    Option<ErrorView>,
    Seq<RecordView>,
) {
    let set = constrained_spec(principal_views(state.principal_set@));
    let names = if set.len() == 0 {
        seq![state.principal@.label_spec()]
    } else {
        labels_of(set)
    };
    let target = "raw-inet-stream-fd:"@ + decimal(fd);
    if !state.armed {
        (None, Seq::empty())
    } else if readiness_refusal(state.readiness) is Some {
        (readiness_refusal(state.readiness), Seq::empty())
    } else {
        match classified {
            Err(reason) => (
                Some(
                    capsec_error(
                        api_name + " classification of raw descriptor "@ + decimal(fd),
                        "oden capsec: refusing raw descriptor passage because its native socket identity could not be classified: "@
                            + reason,
                    ),
                ),
                Seq::empty(),
            ),
            Ok(false) => (None, Seq::empty()),
            Ok(true) => (
                Some(
                    capsec_error(
                        api_name + " access to "@ + debug_quoted(target),
                        "oden capsec: raw INET stream sockets cannot be transferred while capability security is armed"@,
                    ),
                ),
                deny_records(names, "inspector"@, "activate"@, target, "DENY(raw INET stream fd passage)"@),
            ),
        }
    }
}

pub open spec fn str_result_view(r: Result<bool, String>) -> Result<bool, Seq<char>> {
    match r {
        Ok(b) => Ok(b),
        Err(e) => Err(e@),
    }
}

pub fn oden_capsec_check_raw_inet_stream_fd_transfer(
    state: &CapsecState,
    fd: i32,
    api_name: &str,
    classified: Result<bool, String>,
) -> (r: (Result<(), PermissionDeniedError>, Vec<AuditRecord>))
    ensures
        (err_view(r.0), records_view(r.1@)) == raw_fd_spec(*state, fd as int, api_name@, str_result_view(classified)),
{
    if !oden_capsec_profile_is(state, oden_capsec_profile()) {
        return (Ok(()), none());
    }
    match oden_capsec_readiness_gate(&state.readiness) {
        Err(e) => return (Err(e), none()),
        Ok(()) => {},
    }
    let fd_text = decimal_i32(fd);
    let inet_stream = match classified {
        Err(reason) => {
            let access = three(api_name, " classification of raw descriptor ", fd_text.as_str());
            let msg = concat(
                "oden capsec: refusing raw descriptor passage because its native socket identity could not be classified: ",
                reason.as_str(),
            );
            return (Err(capsec_denial(access, msg)), none());
        },
        Ok(b) => b,
    };
    if !inet_stream {
        return (Ok(()), none());
    }
    let target = concat("raw-inet-stream-fd:", fd_text.as_str());
    let constrained = Policy::constrained_principals(state.principal_set.as_slice());
    let names = if constrained.len() == 0 {
        let mut v: Vec<String> = Vec::new();
        v.push(state.principal.label());
        assert(strings_view(v@) =~= seq![state.principal@.label_spec()]);
        v
    } else {
        labels(&constrained)
    };
    let recs = records_for(&names, "inspector", "activate", target.as_str(), "DENY(raw INET stream fd passage)");
    let access = three(api_name, " access to ", debug_str(target.as_str()).as_str());
    let msg = to_owned("oden capsec: raw INET stream sockets cannot be transferred while capability security is armed");
    (Err(capsec_denial(access, msg)), recs)
}

/// The static inspector row a programmatic activation needs.
pub open spec fn inspector_row() -> Capability {
    Capability { family: Family::Inspector, action: "activate"@, scope: Seq::empty() }
}

fn inspector_request() -> (r: Request)
    ensures
        r@ == inspector_row(),
{
    Request { family: Family::Inspector, action: to_owned("activate"), target: String::new() }
}

/// Every member of `set` holds `req` in the static floor.
pub open spec fn all_static(policy: Policy, set: Seq<PrincipalView>, req: Capability) -> bool {
    forall|i: int| 0 <= i < set.len() ==> policy.static_grants_spec(#[trigger] set[i], req)
}

fn all_static_grants(policy: &Policy, set: &Vec<Principal>, req: &Request) -> (r: bool)
    requires
        policy.wf(),
    ensures
        r == all_static(*policy, principal_views(set@), req@),
{
    let ghost sv = principal_views(set@);
    let mut i: usize = 0;
    while i < set.len()
        invariant
            policy.wf(),
            sv == principal_views(set@),
            i <= set@.len(),
            forall|j: int| 0 <= j < i ==> policy.static_grants_spec(#[trigger] sv[j], req@),
        decreases set@.len() - i,
    {
        if !policy.static_grants(&set[i], req) {
            assert(!policy.static_grants_spec(sv[i as int], req@));
            return false;
        }
        i = i + 1;
    }
    true
}

/// An inspector activation needs the exact static `inspector:activate`
/// row: of every constrained principal on a programmatic route, or of the
/// root grants on a startup or host-signal route (`exact_root`). Session
/// allows and handles never satisfy it.
pub open spec fn inspector_activation_spec(
    state: CapsecState,
    policy: Policy,
    root_grants: Seq<Capability>,
    target: Seq<char>,
    api_name: Seq<char>,
    exact_root: bool,
) -> (Option<ErrorView>, Seq<RecordView>) {
    let set = constrained_spec(principal_views(state.principal_set@));
    let allowed = if exact_root {
        covers_spec(root_grants, inspector_row())
    } else {
        set.len() == 0 || all_static(policy, set, inspector_row())
    };
    let names = if exact_root {
        seq!["root/runtime-control"@]
    } else {
        labels_or_root(set)
    };
    let verdict = if allowed && exact_root {
        "allow(exact-root static inspector row)"@
    } else if allowed && set.len() == 0 {
        "allow(ambient programmatic root)"@
    } else if allowed {
        "allow(exact-static inspector row)"@
    } else {
        "DENY(exact-static inspector row required)"@
    };
    let records = labeled_records(
        names,
        "inspector"@,
        "activate"@,
        target,
        verdict,
        if allowed {
            None
        } else {
            Some("inspector:activate"@)
        },
    );
    if !state.armed {
        (None, Seq::empty())
    } else if readiness_refusal(state.readiness) is Some {
        (readiness_refusal(state.readiness), Seq::empty())
    } else if allowed {
        (None, records)
    } else {
        (
            Some(
                capsec_error(
                    api_name + " access to "@ + debug_quoted(target),
                    "oden capsec: inspector activation at "@ + debug_quoted(target)
                        + " requires an exact static inspector:activate row"@,
                ),
            ),
            records,
        )
    }
}

pub fn oden_capsec_check_inspector_activation(
    state: &CapsecState,
    policy: &Policy,
    root_grants: &Vec<Grant>,
    target: &str,
    api_name: &str,
    exact_root_static_row: bool,
) -> (r: (Result<(), PermissionDeniedError>, Vec<AuditRecord>))
    requires
        policy.wf(),
    ensures
        (err_view(r.0), records_view(r.1@)) == inspector_activation_spec(
            *state,
            *policy,
            grants_view(root_grants@),
            target@,
            api_name@,
            exact_root_static_row,
        ),
{
    if !oden_capsec_profile_is(state, oden_capsec_profile()) {
        return (Ok(()), none());
    }
    match oden_capsec_readiness_gate(&state.readiness) {
        Err(e) => return (Err(e), none()),
        Ok(()) => {},
    }
    let req = inspector_request();
    let constrained = Policy::constrained_principals(state.principal_set.as_slice());
    let (allowed, names) = if exact_root_static_row {
        let mut v: Vec<String> = Vec::new();
        v.push(to_owned("root/runtime-control"));
        assert(strings_view(v@) =~= seq!["root/runtime-control"@]);
        (covers(root_grants.as_slice(), &req), v)
    } else {
        let ok = constrained.len() == 0 || all_static_grants(policy, &constrained, &req);
        (ok, audit_labels(&constrained))
    };
    let verdict = if allowed && exact_root_static_row {
        "allow(exact-root static inspector row)"
    } else if allowed && constrained.len() == 0 {
        "allow(ambient programmatic root)"
    } else if allowed {
        "allow(exact-static inspector row)"
    } else {
        "DENY(exact-static inspector row required)"
    };
    let recs = records_with(
        &names,
        "inspector",
        "activate",
        target,
        verdict,
        if allowed {
            None
        } else {
            Some("inspector:activate")
        },
    );
    if allowed {
        return (Ok(()), recs);
    }
    let quoted = debug_str(target);
    let access = three(api_name, " access to ", quoted.as_str());
    let msg = three(
        "oden capsec: inspector activation at ",
        quoted.as_str(),
        " requires an exact static inspector:activate row",
    );
    (Err(capsec_denial(access, msg)), recs)
}

/// The network half of an inspector conjunction: every constrained
/// principal needs the exact static network row for `target`, the display
/// of the peer `host` and its port.
pub open spec fn inspector_network_spec(
    state: CapsecState,
    policy: Policy,
    action: NetPermissionAction,
    host: Seq<char>,
    target: Seq<char>,
    api_name: Seq<char>,
) -> (Option<ErrorView>, Seq<RecordView>) {
    let set = constrained_spec(principal_views(state.principal_set@));
    let req = Capability { family: Family::Network, action: action.spec_str(), scope: target };
    let allowed = set.len() == 0 || all_static(policy, set, req);
    let suggestion = "network:"@ + action.spec_str() + ":"@ + host;
    let records = labeled_records(
        labels_or_root(set),
        "network"@,
        action.spec_str(),
        target,
        if allowed {
            "allow(inspector conjunctive static network row)"@
        } else {
            "DENY(inspector conjunctive static network row required)"@
        },
        if allowed {
            None
        } else {
            Some(suggestion)
        },
    );
    if !state.armed {
        (None, Seq::empty())
    } else if allowed {
        (None, records)
    } else {
        (
            Some(
                capsec_error(
                    api_name + " access to "@ + debug_quoted(target),
                    "oden capsec: inspector transport at "@ + debug_quoted(target) + " requires an exact static "@
                        + suggestion + " row"@,
                ),
            ),
            records,
        )
    }
}

pub fn oden_capsec_check_inspector_network_effect(
    state: &CapsecState,
    policy: &Policy,
    action: NetPermissionAction,
    host: &str,
    target: &str,
    api_name: &str,
) -> (r: (Result<(), PermissionDeniedError>, Vec<AuditRecord>))
    requires
        policy.wf(),
    ensures
        (err_view(r.0), records_view(r.1@)) == inspector_network_spec(*state, *policy, action, host@, target@, api_name@),
{
    if !oden_capsec_profile_is(state, oden_capsec_profile()) {
        return (Ok(()), none());
    }
    let req = Request { family: Family::Network, action: to_owned(action.as_str()), target: to_owned(target) };
    let constrained = Policy::constrained_principals(state.principal_set.as_slice());
    let allowed = constrained.len() == 0 || all_static_grants(policy, &constrained, &req);
    let names = audit_labels(&constrained);
    let a = concat("network:", action.as_str());
    let suggestion = three(a.as_str(), ":", host);
    let recs = records_with(
        &names,
        "network",
        action.as_str(),
        target,
        if allowed {
            "allow(inspector conjunctive static network row)"
        } else {
            "DENY(inspector conjunctive static network row required)"
        },
        if allowed {
            None
        } else {
            Some(suggestion.as_str())
        },
    );
    if allowed {
        return (Ok(()), recs);
    }
    let quoted = debug_str(target);
    let access = three(api_name, " access to ", quoted.as_str());
    let m1 = three("oden capsec: inspector transport at ", quoted.as_str(), " requires an exact static ");
    let msg = three(m1.as_str(), suggestion.as_str(), " row");
    (Err(capsec_denial(access, msg)), recs)
}

/// A trusted runtime-control network effect that is part of an inspector
/// activation is recorded as an ambient allow.
pub open spec fn root_network_effect_spec(state: CapsecState, action: Seq<char>, target: Seq<char>) -> (
    Option<ErrorView>,
    Seq<RecordView>,
) {
    if !state.armed {
        (None, Seq::empty())
    } else if readiness_refusal(state.readiness) is Some {
        (readiness_refusal(state.readiness), Seq::empty())
    } else {
        (None, seq![record_spec("root/runtime-control"@, "network"@, action, target, "allow(ambient)"@, None)])
    }
}

pub fn oden_capsec_record_inspector_root_network_effect(state: &CapsecState, action: &str, target: &str) -> (r: (
    Result<(), PermissionDeniedError>,
    Vec<AuditRecord>,
))
    ensures
        (err_view(r.0), records_view(r.1@)) == root_network_effect_spec(*state, action@, target@),
{
    if !oden_capsec_profile_is(state, oden_capsec_profile()) {
        return (Ok(()), none());
    }
    match oden_capsec_readiness_gate(&state.readiness) {
        Err(e) => return (Err(e), none()),
        Ok(()) => {},
    }
    (Ok(()), one(record("root/runtime-control", "network", action, target, "allow(ambient)", None)))
}

/// A runtime-control listener needs the exact root inspector row; the
/// network listen it implies is recorded as ambient.
pub open spec fn listener_startup_spec(
    state: CapsecState,
    policy: Policy,
    root_grants: Seq<Capability>,
    target: Seq<char>,
    api_name: Seq<char>,
) -> (Option<ErrorView>, Seq<RecordView>) {
    let first = inspector_activation_spec(state, policy, root_grants, target, api_name, true);
    if first.0 is Some || !state.armed {
        first
    } else {
        (
            None,
            first.1.push(
                record_spec("root/runtime-control"@, "network"@, "listen"@, target, "allow(ambient)"@, None),
            ),
        )
    }
}

pub fn oden_capsec_check_inspector_listener_startup(
    state: &CapsecState,
    policy: &Policy,
    root_grants: &Vec<Grant>,
    target: &str,
    api_name: &str,
) -> (r: (Result<(), PermissionDeniedError>, Vec<AuditRecord>))
    requires
        policy.wf(),
    ensures
        (err_view(r.0), records_view(r.1@)) == listener_startup_spec(
            *state,
            *policy,
            grants_view(root_grants@),
            target@,
            api_name@,
        ),
{
    let (first, mut recs) = oden_capsec_check_inspector_activation(state, policy, root_grants, target, api_name, true);
    match first {
        Err(e) => return (Err(e), recs),
        Ok(()) => {},
    }
    if !oden_capsec_profile_is(state, oden_capsec_profile()) {
        return (Ok(()), recs);
    }
    let ghost before = records_view(recs@);
    recs.push(record("root/runtime-control", "network", "listen", target, "allow(ambient)", None));
    assert(records_view(recs@) =~= before.push(recs@.last()@));
    (Ok(()), recs)
}

/// A programmatic inspector listener needs every constrained principal's
/// static inspector row; the listen it implies is recorded for the runtime.
pub open spec fn listener_programmatic_spec(state: CapsecState, policy: Policy, target: Seq<char>, api_name: Seq<char>) -> (
    Option<ErrorView>,
    Seq<RecordView>,
) {
    let first = inspector_activation_spec(state, policy, Seq::empty(), target, api_name, false);
    if first.0 is Some {
        first
    } else {
        let second = root_network_effect_spec(state, "listen"@, target);
        (second.0, first.1 + second.1)
    }
}

pub fn oden_capsec_check_inspector_listener_programmatic(
    state: &CapsecState,
    policy: &Policy,
    target: &str,
    api_name: &str,
) -> (r: (Result<(), PermissionDeniedError>, Vec<AuditRecord>))
    requires
        policy.wf(),
    ensures
        (err_view(r.0), records_view(r.1@)) == listener_programmatic_spec(*state, *policy, target@, api_name@),
{
    let no_root: Vec<Grant> = Vec::new();
    proof {
        assert(grants_view(no_root@) =~= Seq::<Capability>::empty());
    }
    let (first, mut recs) = oden_capsec_check_inspector_activation(state, policy, &no_root, target, api_name, false);
    match first {
        Err(e) => return (Err(e), recs),
        Ok(()) => {},
    }
    let (second, mut more) = oden_capsec_record_inspector_root_network_effect(state, "listen", target);
    let ghost a = records_view(recs@);
    let ghost b = records_view(more@);
    recs.append(&mut more);
    assert(records_view(recs@) =~= a + b);
    (second, recs)
}

/// Where a signal is aimed: the current process, or another pid.
pub open spec fn signal_target_spec(pid: int, self_pid: int, signal: Seq<char>) -> Seq<char> {
    (if pid == self_pid {
        "self"@
    } else {
        "pid:"@ + decimal(pid)
    }) + ":"@ + signal
}

/// A signal is one conjunctive effect set: `process:signal` is deny-only
/// for packages, and a signal that can activate the inspector also needs
/// the exact static `inspector:activate` row of every constrained
/// principal. Both rows are recorded before the verdict; the current
/// process gets no exemption.
pub open spec fn signal_spec(
    state: CapsecState,
    policy: Policy,
    pid: int,
    self_pid: int,
    signal: Seq<char>,
    inspector_trigger: bool,
    api_name: Seq<char>,
) -> (Option<ErrorView>, Seq<RecordView>) {
    let set = constrained_spec(principal_views(state.principal_set@));
    let names = labels_or_root(set);
    let target = signal_target_spec(pid, self_pid, signal);
    let signal_allowed = set.len() == 0;
    let inspector_allowed = !inspector_trigger || set.len() == 0 || all_static(policy, set, inspector_row());
    let signal_records = deny_records(
        names,
        "process"@,
        "signal"@,
        target,
        if signal_allowed {
            "allow(ambient)"@
        } else {
            "DENY(deny-only surface)"@
        },
    );
    let inspector_records = if inspector_trigger {
        labeled_records(
            names,
            "inspector"@,
            "activate"@,
            "signal:"@ + target,
            if inspector_allowed {
                "allow(exact-static inspector row)"@
            } else {
                "DENY(exact-static inspector row required)"@
            },
            if inspector_allowed {
                None
            } else {
                Some("inspector:activate"@)
            },
        )
    } else {
        Seq::empty()
    };
    if !state.armed {
        (None, Seq::empty())
    } else if readiness_refusal(state.readiness) is Some {
        (readiness_refusal(state.readiness), Seq::empty())
    } else if signal_allowed && inspector_allowed {
        (None, signal_records + inspector_records)
    } else {
        (
            Some(
                capsec_error(
                    api_name + " access to "@ + debug_quoted(target),
                    "oden capsec: signal delivery at "@ + debug_quoted(target) + " failed the complete process:signal"@ + (
                    if inspector_trigger {
                        " + inspector:activate"@
                    } else {
                        ""@
                    }) + " preflight"@,
                ),
            ),
            signal_records + inspector_records,
        )
    }
}

/// Preflights delivering `signal` to `pid`; `self_pid` is the current
/// process id.
pub fn oden_capsec_check_process_signal(
    state: &CapsecState,
    policy: &Policy,
    pid: i32,
    self_pid: i32,
    signal: &str,
    inspector_trigger: bool,
    api_name: &str,
) -> (r: (Result<(), PermissionDeniedError>, Vec<AuditRecord>))
    requires
        policy.wf(),
    ensures
        (err_view(r.0), records_view(r.1@)) == signal_spec(
            *state,
            *policy,
            pid as int,
            self_pid as int,
            signal@,
            inspector_trigger,
            api_name@,
        ),
{
    if !oden_capsec_profile_is(state, oden_capsec_profile()) {
        return (Ok(()), none());
    }
    match oden_capsec_readiness_gate(&state.readiness) {
        Err(e) => return (Err(e), none()),
        Ok(()) => {},
    }
    let constrained = Policy::constrained_principals(state.principal_set.as_slice());
    let names = audit_labels(&constrained);
    let class = if pid == self_pid {
        to_owned("self")
    } else {
        let n = decimal_i32(pid);
        concat("pid:", n.as_str())
    };
    let target = three(class.as_str(), ":", signal);
    let signal_allowed = constrained.len() == 0;
    let mut recs = records_for(
        &names,
        "process",
        "signal",
        target.as_str(),
        if signal_allowed {
            "allow(ambient)"
        } else {
            "DENY(deny-only surface)"
        },
    );
    let inspector_allowed = if inspector_trigger {
        let req = inspector_request();
        constrained.len() == 0 || all_static_grants(policy, &constrained, &req)
    } else {
        true
    };
    if inspector_trigger {
        let itarget = concat("signal:", target.as_str());
        let mut more = records_with(
            &names,
            "inspector",
            "activate",
            itarget.as_str(),
            if inspector_allowed {
                "allow(exact-static inspector row)"
            } else {
                "DENY(exact-static inspector row required)"
            },
            if inspector_allowed {
                None
            } else {
                Some("inspector:activate")
            },
        );
        let ghost before = records_view(recs@);
        let ghost extra = records_view(more@);
        recs.append(&mut more);
        assert(records_view(recs@) =~= before + extra);
    } else {
        assert(records_view(recs@) =~= records_view(recs@) + Seq::<RecordView>::empty());
    }
    if signal_allowed && inspector_allowed {
        return (Ok(()), recs);
    }
    let quoted = debug_str(target.as_str());
    let access = three(api_name, " access to ", quoted.as_str());
    let m1 = three("oden capsec: signal delivery at ", quoted.as_str(), " failed the complete process:signal");
    let m2 = concat(
        m1.as_str(),
        if inspector_trigger {
            " + inspector:activate"
        } else {
            ""
        },
    );
    let m3 = concat(m2.as_str(), " preflight");
    (Err(capsec_denial(access, m3)), recs)
}

/// Importing from the engine's control plane is refused: the policy and
/// the audit channel are not importable package authority. `file_target`
/// is the normalized path of a `file:` specifier, if it has one, and
/// `in_control_root` whether it lies within the control root.
pub open spec fn control_specifier_spec(state: CapsecState, scheme: Seq<char>, file_target: Option<Seq<char>>, in_control_root: bool) -> (
    Option<ErrorView>,
    Seq<RecordView>,
) {
    if !state.armed || scheme != "file"@ || file_target is None || !control_request(
        Capability { family: Family::Fs, action: "read"@, scope: file_target->0 },
        false,
        state.control_root,
        in_control_root,
    ) {
        (None, Seq::empty())
    } else {
        let target = file_target->0;
        (
            Some(
                capsec_error(
                    "capsec control-plane import from "@ + debug_quoted(target),
                    "oden capsec: the engine policy and audit channel are not importable package authority"@,
                ),
            ),
            seq![
                record_spec(
                    state.principal@.label_spec(),
                    "fs"@,
                    "read"@,
                    target,
                    "DENY(control plane import)"@,
                    None,
                ),
            ],
        )
    }
}

pub fn oden_capsec_reject_control_specifier(
    state: &CapsecState,
    scheme: &str,
    file_target: Option<&str>,
    in_control_root: bool,
) -> (r: (Result<(), PermissionDeniedError>, Vec<AuditRecord>))
    ensures
        (err_view(r.0), records_view(r.1@)) == control_specifier_spec(*state, scheme@, opt_str_ref(file_target), in_control_root),
{
    if !state.armed || !crate::text::str_eq(scheme, "file") {
        return (Ok(()), none());
    }
    let target = match file_target {
        None => return (Ok(()), none()),
        Some(t) => t,
    };
    let req = Request { family: Family::Fs, action: to_owned("read"), target: to_owned(target) };
    if !is_control_request(&req, false, state.control_root, in_control_root) {
        return (Ok(()), none());
    }
    let label = state.principal.label();
    let rec = record(label.as_str(), "fs", "read", target, "DENY(control plane import)", None);
    let access = concat("capsec control-plane import from ", debug_str(target).as_str());
    let msg = to_owned("oden capsec: the engine policy and audit channel are not importable package authority");
    (Err(capsec_denial(access, msg)), one(rec))
}

/// Remote imports are graph-gated for packages: the closed-scheme gate
/// first, then, for a network scheme and a non-ambient referrer, the mode
/// decides; the import is attributed to `referrer`.
pub open spec fn gate_import_spec(state: CapsecState, mode: Mode, referrer: Principal, scheme: Seq<char>, target: Seq<char>) -> (
    Option<ErrorView>,
    Seq<RecordView>,
) {
    let g = gate_scheme_spec(state, scheme, "module import"@, Some(referrer));
    let label = referrer@.label_spec();
    if !state.armed {
        (None, Seq::empty())
    } else {
        match g.0 {
            Err(e) => (Some(e), g.1),
            Ok(class) => if class != OdenUrlSchemeClass::Network || referrer@.is_ambient() {
                (None, Seq::empty())
            } else if readiness_refusal(state.readiness) is Some {
                (readiness_refusal(state.readiness), Seq::empty())
            } else {
                let verdict = if mode == Mode::Enforce {
                    "DENY(import graph default-denied under active profile)"@
                } else if mode == Mode::Audit {
                    "audit(record)"@
                } else {
                    "allow(permissive)"@
                };
                (
                    if mode == Mode::Enforce {
                        Some(
                            capsec_error(
                                "import of "@ + debug_quoted(target),
                                "oden capsec: principal \""@ + label + "\" may not import "@ + scheme
                                    + ": code (this scheme is graph-gated for packages by the active capsec profile)"@,
                            ),
                        )
                    } else {
                        None
                    },
                    seq![record_spec(label, "import"@, scheme, target, verdict, None)],
                )
            },
        }
    }
}

pub fn oden_capsec_gate_import(
    state: &CapsecState,
    mode: Mode,
    referrer: &Principal,
    scheme: &str,
    target: &str,
) -> (r: (Result<(), PermissionDeniedError>, Vec<AuditRecord>))
    ensures
        (err_view(r.0), records_view(r.1@)) == gate_import_spec(*state, mode, *referrer, scheme@, target@),
{
    if !state.armed {
        return (Ok(()), none());
    }
    let (class, recs) = oden_capsec_gate_url_scheme_inner(state, scheme, "module import", Some(referrer));
    let class = match class {
        Err(e) => return (Err(e), recs),
        Ok(c) => c,
    };
    if class != OdenUrlSchemeClass::Network || referrer.is_ambient() {
        return (Ok(()), none());
    }
    match oden_capsec_readiness_gate(&state.readiness) {
        Err(e) => return (Err(e), none()),
        Ok(()) => {},
    }
    let label = referrer.label();
    let verdict = if mode == Mode::Enforce {
        "DENY(import graph default-denied under active profile)"
    } else if mode == Mode::Audit {
        "audit(record)"
    } else {
        "allow(permissive)"
    };
    let rec = one(record(label.as_str(), "import", scheme, target, verdict, None));
    if mode == Mode::Enforce {
        let access = concat("import of ", debug_str(target).as_str());
        let m1 = three("oden capsec: principal \"", label.as_str(), "\" may not import ");
        let msg = three(
            m1.as_str(),
            scheme,
            ": code (this scheme is graph-gated for packages by the active capsec profile)",
        );
        return (Err(capsec_denial(access, msg)), rec);
    }
    (Ok(()), rec)
}

/// A typed import whose referrer or path identity cannot be trusted.
pub open spec fn identity_denied_spec(p: PrincipalView, import_type: Seq<char>, target: Seq<char>, reason: Seq<char>) -> (
    Option<ErrorView>,
    Seq<RecordView>,
) {
    (
        Some(
            capsec_error(
                "typed import ("@ + import_type + ") access to "@ + debug_quoted(target),
                "oden capsec: typed import ("@ + import_type + ") has no trustworthy referrer/path identity ("@ + reason
                    + ")"@,
            ),
        ),
        seq![record_spec(p.label_spec(), "fs"@, "read"@, target, "DENY(loader identity: "@ + reason + ")"@, None)],
    )
}

fn identity_denied(p: &Principal, import_type: &str, target: &str, reason: &str) -> (r: (
    Result<(), PermissionDeniedError>,
    Vec<AuditRecord>,
))
    ensures
        (err_view(r.0), records_view(r.1@)) == identity_denied_spec(p@, import_type@, target@, reason@),
{
    let label = p.label();
    let verdict = three("DENY(loader identity: ", reason, ")");
    let rec = one(record(label.as_str(), "fs", "read", target, verdict.as_str(), None));
    let a = three("typed import (", import_type, ") access to ");
    let access = concat(a.as_str(), debug_str(target).as_str());
    let m1 = three("oden capsec: typed import (", import_type, ") has no trustworthy referrer/path identity (");
    let msg = three(m1.as_str(), reason, ")");
    (Err(capsec_denial(access, msg)), rec)
}

pub open spec fn typed_kind(t: Seq<char>) -> bool {
    t == "text"@ || t == "json"@ || t == "bytes"@
}

/// Local typed-data bytes are read for the importing module's principal:
/// an unknown kind, an unattributable referrer or a malformed path is
/// refused; otherwise the ordinary `fs:read` decision applies to
/// `file_path` (normalized to `normalized`).
pub open spec fn typed_import_spec(
    state: CapsecState,
    policy: Policy,
    window: ActiveHandles,
    referrer: Option<Principal>,
    scheme: Seq<char>,
    specifier: Seq<char>,
    file_path: Option<Seq<char>>,
    normalized: Seq<char>,
    in_control_root: bool,
    import_type: Seq<char>,
) -> (Option<ErrorView>, Seq<RecordView>) {
    let p = match referrer {
        Some(p) => p,
        None => Principal::NoUser,
    };
    if !state.armed || scheme != "file"@ {
        (None, Seq::empty())
    } else if readiness_refusal(state.readiness) is Some {
        (readiness_refusal(state.readiness), Seq::empty())
    } else if !typed_kind(import_type) {
        identity_denied_spec(p@, import_type, specifier, "unknown typed-import kind"@)
    } else if p@ is NoUser || p@ is Quarantine {
        identity_denied_spec(p@, import_type, specifier, "missing or unattributable referrer"@)
    } else {
        match file_path {
            None => identity_denied_spec(p@, import_type, specifier, "malformed local resource identity"@),
            Some(path) => decide_spec(
                state,
                policy,
                window,
                Family::Fs,
                "read"@,
                path,
                normalized,
                in_control_root,
                Some("typed import ("@ + import_type + ")"@),
                false,
                Some(p),
            ),
        }
    }
}

pub fn oden_capsec_gate_local_typed_import(
    state: &CapsecState,
    policy: &Policy,
    window: &ActiveHandles,
    referrer: Option<&Principal>,
    scheme: &str,
    specifier: &str,
    file_path: Option<&str>,
    normalized: &str,
    in_control_root: bool,
    import_type: &str,
) -> (r: (Result<(), PermissionDeniedError>, Vec<AuditRecord>))
    requires
        policy.wf(),
    ensures
        (err_view(r.0), records_view(r.1@)) == typed_import_spec(
            *state,
            *policy,
            *window,
            opt_principal(referrer),
            scheme@,
            specifier@,
            opt_str_ref(file_path),
            normalized@,
            in_control_root,
            import_type@,
        ),
{
    if !state.armed || !crate::text::str_eq(scheme, "file") {
        return (Ok(()), none());
    }
    match oden_capsec_readiness_gate(&state.readiness) {
        Err(e) => return (Err(e), none()),
        Ok(()) => {},
    }
    let p = match referrer {
        Some(p) => p.duplicate(),
        None => Principal::NoUser,
    };
    let kind_ok = crate::text::str_eq(import_type, "text") || crate::text::str_eq(import_type, "json")
        || crate::text::str_eq(import_type, "bytes");
    if !kind_ok {
        return identity_denied(&p, import_type, specifier, "unknown typed-import kind");
    }
    match p {
        Principal::NoUser | Principal::Quarantine => {
            return identity_denied(&p, import_type, specifier, "missing or unattributable referrer");
        },
        _ => {},
    }
    let path = match file_path {
        None => return identity_denied(&p, import_type, specifier, "malformed local resource identity"),
        Some(path) => path,
    };
    let api = three("typed import (", import_type, ")");
    oden_capsec_decide_inner(
        state,
        policy,
        window,
        Family::Fs,
        "read",
        path,
        normalized,
        in_control_root,
        Some(api.as_str()),
        false,
        Some(&p),
    )
}

/// Which authority class a URL scheme can reach.
#[derive(Clone, Copy, Debug, PartialEq, Eq, Structural)]
pub enum OdenUrlSchemeClass {
    Network,
    File,
    InlineData,
    RuntimeInternal,
    ClosedBlob,
    ClosedUnknown,
}

/// An ASCII letter in lower case; any other character as it is.
pub open spec fn ascii_lower(c: char) -> char {
    if 'A' <= c && c <= 'Z' {
        ((c as u32) + 32) as char
    } else {
        c
    }
}

pub open spec fn ascii_lowercase(s: Seq<char>) -> Seq<char> {
    s.map_values(|c: char| ascii_lower(c))
}

pub fn to_ascii_lowercase(s: &str) -> (r: String)
    ensures
        r@ == ascii_lowercase(s@),
{
    let n = s.unicode_len();
    let mut out = String::new();
    let mut i: usize = 0;
    while i < n
        invariant
            n == s@.len(),
            i <= n,
            out@ == ascii_lowercase(s@.take(i as int)),
        decreases n - i,
    {
        let c = s.get_char(i);
        let ghost before = out@;
        if 'A' <= c && c <= 'Z' {
            let x = c as u32;
            let code = (x + 32) as u8;
            let lower = code as char;
            assert(lower == ascii_lower(c));
            out.push(lower);
        } else {
            out.push(c);
        }
        assert(ascii_lowercase(s@.take(i + 1)) =~= ascii_lowercase(s@.take(i as int)).push(ascii_lower(c)));
        i = i + 1;
    }
    assert(s@.take(n as int) =~= s@);
    out
}

/// A scheme as compared: at most one trailing `:` removed, in lower case.
pub open spec fn normalized_scheme(scheme: Seq<char>) -> Seq<char> {
    ascii_lowercase(
        match crate::text::strip_suffix_char(scheme, ':') {
            Some(s) => s,
            None => scheme,
        },
    )
}

pub fn oden_capsec_normalize_url_scheme(scheme: &str) -> (r: String)
    ensures
        r@ == normalized_scheme(scheme@),
{
    let n = scheme.unicode_len();
    if n > 0 && scheme.get_char(n - 1) == ':' {
        let s = substring(scheme, 0, n - 1);
        assert(s@ =~= scheme@.drop_last());
        to_ascii_lowercase(s.as_str())
    } else {
        to_ascii_lowercase(scheme)
    }
}

pub open spec fn scheme_class(scheme: Seq<char>) -> OdenUrlSchemeClass {
    let s = normalized_scheme(scheme);
    if s == "http"@ || s == "https"@ {
        OdenUrlSchemeClass::Network
    } else if s == "file"@ {
        OdenUrlSchemeClass::File
    } else if s == "data"@ {
        OdenUrlSchemeClass::InlineData
    } else if s == "node"@ || s == "npm"@ || s == "jsr"@ || s == "bun"@ || s == "ext"@ || s == "deno"@ {
        OdenUrlSchemeClass::RuntimeInternal
    } else if s == "blob"@ {
        OdenUrlSchemeClass::ClosedBlob
    } else {
        OdenUrlSchemeClass::ClosedUnknown
    }
}

/// Classifies a URL scheme, with or without its trailing `:`.
pub fn oden_capsec_classify_url_scheme(scheme: &str) -> (r: OdenUrlSchemeClass)
    ensures
        r == scheme_class(scheme@),
{
    let n = oden_capsec_normalize_url_scheme(scheme);
    let s = n.as_str();
    let eq = |x: &str| -> (b: bool)
        ensures
            b == (s@ == x@),
        { crate::text::str_eq(s, x) };
    if eq("http") || eq("https") {
        OdenUrlSchemeClass::Network
    } else if eq("file") {
        OdenUrlSchemeClass::File
    } else if eq("data") {
        OdenUrlSchemeClass::InlineData
    } else if eq("node") || eq("npm") || eq("jsr") || eq("bun") || eq("ext") || eq("deno") {
        OdenUrlSchemeClass::RuntimeInternal
    } else if eq("blob") {
        OdenUrlSchemeClass::ClosedBlob
    } else {
        OdenUrlSchemeClass::ClosedUnknown
    }
}

/// The closed-scheme gate: a blob or unknown scheme is refused while the
/// profile is armed; any other scheme passes with its class.
pub open spec fn gate_scheme_spec(state: CapsecState, scheme: Seq<char>, api_name: Seq<char>, explicit: Option<Principal>) -> (
    Result<OdenUrlSchemeClass, ErrorView>,
    Seq<RecordView>,
) {
    let class = scheme_class(scheme);
    let s = normalized_scheme(scheme);
    if !state.armed || !(class == OdenUrlSchemeClass::ClosedBlob || class == OdenUrlSchemeClass::ClosedUnknown) {
        (Ok(class), Seq::empty())
    } else if readiness_refusal(state.readiness) is Some {
        (Err(readiness_refusal(state.readiness)->0), Seq::empty())
    } else {
        let reason = if class == OdenUrlSchemeClass::ClosedBlob {
            "blob ownership and cross-principal delegation are not modeled"@
        } else {
            "the URL scheme is not modeled"@
        };
        (
            Err(
                capsec_error(
                    api_name + " URL scheme "@ + debug_quoted(s),
                    "oden capsec: "@ + api_name + " cannot use "@ + s + ": ("@ + reason + ")"@,
                ),
            ),
            seq![
                record_spec(
                    acting(state, explicit).label_spec(),
                    "protocol"@,
                    "classify"@,
                    s,
                    "DENY(closed scheme: "@ + reason + ")"@,
                    None,
                ),
            ],
        )
    }
}

pub open spec fn class_result_view(r: Result<OdenUrlSchemeClass, PermissionDeniedError>) -> Result<OdenUrlSchemeClass, ErrorView> {
    match r {
        Ok(c) => Ok(c),
        Err(e) => Err(e@),
    }
}

fn oden_capsec_gate_url_scheme_inner(state: &CapsecState, scheme: &str, api_name: &str, explicit_principal: Option<&Principal>) -> (r: (
    Result<OdenUrlSchemeClass, PermissionDeniedError>,
    Vec<AuditRecord>,
))
    ensures
        (class_result_view(r.0), records_view(r.1@)) == gate_scheme_spec(*state, scheme@, api_name@, opt_principal(explicit_principal)),
{
    let class = oden_capsec_classify_url_scheme(scheme);
    if !oden_capsec_profile_is(state, oden_capsec_profile()) || !(class == OdenUrlSchemeClass::ClosedBlob || class
        == OdenUrlSchemeClass::ClosedUnknown) {
        return (Ok(class), none());
    }
    match oden_capsec_readiness_gate(&state.readiness) {
        Err(e) => return (Err(e), none()),
        Ok(()) => {},
    }
    let label = match explicit_principal {
        Some(p) => p.label(),
        None => state.principal.label(),
    };
    let normalized = oden_capsec_normalize_url_scheme(scheme);
    let reason = if class == OdenUrlSchemeClass::ClosedBlob {
        "blob ownership and cross-principal delegation are not modeled"
    } else {
        "the URL scheme is not modeled"
    };
    let verdict = three("DENY(closed scheme: ", reason, ")");
    let rec = record(label.as_str(), "protocol", "classify", normalized.as_str(), verdict.as_str(), None);
    let access = three(api_name, " URL scheme ", debug_str(normalized.as_str()).as_str());
    let m1 = three("oden capsec: ", api_name, " cannot use ");
    let m2 = three(m1.as_str(), normalized.as_str(), ": (");
    let m3 = three(m2.as_str(), reason, ")");
    (Err(capsec_denial(access, m3)), one(rec))
}

/// Applies the closed-scheme invariant at a URL-consuming boundary and
/// answers the class, which decides the check that must follow.
pub fn oden_capsec_gate_url_scheme(state: &CapsecState, scheme: &str, api_name: &str) -> (r: (
    Result<OdenUrlSchemeClass, PermissionDeniedError>,
    Vec<AuditRecord>,
))
    ensures
        (class_result_view(r.0), records_view(r.1@)) == gate_scheme_spec(*state, scheme@, api_name@, None),
{
    oden_capsec_gate_url_scheme_inner(state, scheme, api_name, None)
}

/// A network facade must receive a network scheme: any other class that
/// passed the closed-scheme gate is refused here.
pub open spec fn require_network_spec(state: CapsecState, scheme: Seq<char>, api_name: Seq<char>) -> (
    Option<ErrorView>,
    Seq<RecordView>,
) {
    let g = gate_scheme_spec(state, scheme, api_name, None);
    let s = normalized_scheme(scheme);
    match g.0 {
        Err(e) => (Some(e), g.1),
        Ok(class) => if !state.armed || class == OdenUrlSchemeClass::Network {
            (None, g.1)
        } else if readiness_refusal(state.readiness) is Some {
            (readiness_refusal(state.readiness), g.1)
        } else {
            (
                Some(
                    capsec_error(
                        api_name + " URL scheme "@ + debug_quoted(s),
                        "oden capsec: "@ + api_name + " cannot use "@ + s
                            + ": because this surface requires a network URL scheme"@,
                    ),
                ),
                g.1 + seq![
                    record_spec(
                        state.principal@.label_spec(),
                        "protocol"@,
                        "classify"@,
                        s,
                        "DENY(non-network scheme at network surface)"@,
                        None,
                    ),
                ],
            )
        },
    }
}

pub fn oden_capsec_require_network_url_scheme(state: &CapsecState, scheme: &str, api_name: &str) -> (r: (
    Result<(), PermissionDeniedError>,
    Vec<AuditRecord>,
))
    ensures
        (err_view(r.0), records_view(r.1@)) == require_network_spec(*state, scheme@, api_name@),
{
    let (gate, mut recs) = oden_capsec_gate_url_scheme(state, scheme, api_name);
    let class = match gate {
        Err(e) => return (Err(e), recs),
        Ok(c) => c,
    };
    if !oden_capsec_profile_is(state, "oden/capsec/1.1") || class == OdenUrlSchemeClass::Network {
        return (Ok(()), recs);
    }
    match oden_capsec_readiness_gate(&state.readiness) {
        Err(e) => return (Err(e), recs),
        Ok(()) => {},
    }
    let label = state.principal.label();
    let normalized = oden_capsec_normalize_url_scheme(scheme);
    let ghost before = records_view(recs@);
    recs.push(
        record(
            label.as_str(),
            "protocol",
            "classify",
            normalized.as_str(),
            "DENY(non-network scheme at network surface)",
            None,
        ),
    );
    assert(records_view(recs@) =~= before + seq![recs@.last()@]);
    let access = three(api_name, " URL scheme ", debug_str(normalized.as_str()).as_str());
    let m1 = three("oden capsec: ", api_name, " cannot use ");
    let m2 = three(m1.as_str(), normalized.as_str(), ": because this surface requires a network URL scheme");
    (Err(capsec_denial(access, m2)), recs)
}

/// The known fields of a permission descriptor from script.
pub struct OdenDynamicPermissionDescriptor {
    pub name: String,
    pub path: Option<String>,
    pub host: Option<String>,
    pub variable: Option<String>,
    pub kind: Option<String>,
    pub command: Option<String>,
}

pub struct DescriptorView {
    pub name: Seq<char>,
    pub path: Option<Seq<char>>,
    pub host: Option<Seq<char>>,
    pub variable: Option<Seq<char>>,
    pub kind: Option<Seq<char>>,
    pub command: Option<Seq<char>>,
}

impl View for OdenDynamicPermissionDescriptor {
    type V = DescriptorView;

    open spec fn view(&self) -> DescriptorView {
        DescriptorView {
            name: self.name@,
            path: opt_str(self.path),
            host: opt_str(self.host),
            variable: opt_str(self.variable),
            kind: opt_str(self.kind),
            command: opt_str(self.command),
        }
    }
}

pub open spec fn or_star(o: Option<Seq<char>>) -> Seq<char> {
    match o {
        Some(s) => s,
        None => "*"@,
    }
}

/// The capability request a descriptor asks for, `path_target` being its
/// path resolved for the file system (or `*`). Import admission is no host
/// capability.
pub open spec fn dynamic_request_spec(d: DescriptorView, path_target: Seq<char>) -> Option<Capability> {
    if d.name == "read"@ {
        Some(Capability { family: Family::Fs, action: "read"@, scope: path_target })
    } else if d.name == "write"@ {
        Some(Capability { family: Family::Fs, action: "write"@, scope: path_target })
    } else if d.name == "net"@ {
        Some(Capability { family: Family::Network, action: "*"@, scope: or_star(d.host) })
    } else if d.name == "env"@ {
        Some(Capability { family: Family::Env, action: "*"@, scope: or_star(d.variable) })
    } else if d.name == "sys"@ {
        Some(Capability { family: Family::Sys, action: "read"@, scope: or_star(d.kind) })
    } else if d.name == "run"@ {
        Some(Capability { family: Family::Run, action: "run"@, scope: or_star(d.command) })
    } else if d.name == "ffi"@ {
        Some(Capability { family: Family::Ffi, action: "load"@, scope: or_star(d.path) })
    } else {
        None
    }
}

fn or_star_exec(o: &Option<String>) -> (r: String)
    ensures
        r@ == or_star(opt_str(*o)),
{
    match o {
        Some(s) => s.clone(),
        None => to_owned("*"),
    }
}

fn request_of(family: Family, action: &str, target: String) -> (r: Request)
    ensures
        r@ == (Capability { family, action: action@, scope: target@ }),
{
    Request { family, action: to_owned(action), target }
}

pub fn oden_dynamic_request(desc: &OdenDynamicPermissionDescriptor, path_target: &str) -> (r: Option<Request>)
    ensures
        opt_req_owned(r) == dynamic_request_spec(desc@, path_target@),
{
    let n = desc.name.as_str();
    if crate::text::str_eq(n, "read") {
        Some(request_of(Family::Fs, "read", to_owned(path_target)))
    } else if crate::text::str_eq(n, "write") {
        Some(request_of(Family::Fs, "write", to_owned(path_target)))
    } else if crate::text::str_eq(n, "net") {
        Some(request_of(Family::Network, "*", or_star_exec(&desc.host)))
    } else if crate::text::str_eq(n, "env") {
        Some(request_of(Family::Env, "*", or_star_exec(&desc.variable)))
    } else if crate::text::str_eq(n, "sys") {
        Some(request_of(Family::Sys, "read", or_star_exec(&desc.kind)))
    } else if crate::text::str_eq(n, "run") {
        Some(request_of(Family::Run, "run", or_star_exec(&desc.command)))
    } else if crate::text::str_eq(n, "ffi") {
        Some(request_of(Family::Ffi, "load", or_star_exec(&desc.path)))
    } else {
        None
    }
}

pub open spec fn opt_req_owned(r: Option<Request>) -> Option<Capability> {
    match r {
        Some(q) => Some(q@),
        None => None,
    }
}

/// A descriptor that leaves out its subject asks about everything.
pub open spec fn aggregate_spec(d: DescriptorView) -> bool {
    if d.name == "read"@ || d.name == "write"@ || d.name == "ffi"@ {
        d.path is None
    } else if d.name == "env"@ {
        d.variable is None
    } else if d.name == "net"@ {
        d.host is None
    } else if d.name == "sys"@ {
        d.kind is None
    } else if d.name == "run"@ {
        d.command is None
    } else {
        false
    }
}

fn descriptor_is_aggregate(d: &OdenDynamicPermissionDescriptor) -> (r: bool)
    ensures
        r == aggregate_spec(d@),
{
    let n = d.name.as_str();
    if crate::text::str_eq(n, "read") || crate::text::str_eq(n, "write") || crate::text::str_eq(n, "ffi") {
        d.path.is_none()
    } else if crate::text::str_eq(n, "env") {
        d.variable.is_none()
    } else if crate::text::str_eq(n, "net") {
        d.host.is_none()
    } else if crate::text::str_eq(n, "sys") {
        d.kind.is_none()
    } else if crate::text::str_eq(n, "run") {
        d.command.is_none()
    } else {
        false
    }
}

/// Does a dynamic descriptor reach the control plane? Besides the ordinary
/// control requests, an environment pattern that could cover an engine
/// variable does.
pub open spec fn dynamic_control_spec(d: DescriptorView, req: Capability, control_root: bool, in_control_root: bool) -> bool {
    control_request(req, aggregate_spec(d), control_root, in_control_root) || (d.name == "env"@ && d.variable is Some
        && crate::text::strip_suffix_char(d.variable->0, '*') is Some && ({
        let prefix = crate::text::strip_suffix_char(d.variable->0, '*')->0;
        prefix.is_prefix_of("ODEN_CAPSEC_"@) || "ODEN_CAPSEC_"@.is_prefix_of(prefix)
    }))
}

/// Whether a dynamic request for `d` reaches the control plane.
pub fn oden_capsec_is_dynamic_control_request(d: &OdenDynamicPermissionDescriptor, req: &Request, control_root: bool, in_control_root: bool) -> (r:
    bool)
    ensures
        r == dynamic_control_spec(d@, req@, control_root, in_control_root),
{
    if is_control_request(req, descriptor_is_aggregate(d), control_root, in_control_root) {
        return true;
    }
    if !crate::text::str_eq(d.name.as_str(), "env") {
        return false;
    }
    match &d.variable {
        None => false,
        Some(v) => {
            let n = v.as_str().unicode_len();
            if n > 0 && v.as_str().get_char(n - 1) == '*' {
                let prefix = substring(v.as_str(), 0, n - 1);
                assert(prefix@ =~= v@.drop_last());
                starts_with("ODEN_CAPSEC_", prefix.as_str()) || starts_with(prefix.as_str(), "ODEN_CAPSEC_")
            } else {
                false
            }
        },
    }
}

/// An audit record of a dynamic query or revocation.
#[derive(Debug, PartialEq, Eq)]
pub struct DynamicQueryRecord {
    pub operation: String,
    pub principal: String,
    pub capability: Option<String>,
    pub target: String,
    pub decision: String,
    pub code: String,
}

pub struct QueryRecordView {
    pub operation: Seq<char>,
    pub principal: Seq<char>,
    pub capability: Option<Seq<char>>,
    pub target: Seq<char>,
    pub decision: Seq<char>,
    pub code: Seq<char>,
}

impl View for DynamicQueryRecord {
    type V = QueryRecordView;

    open spec fn view(&self) -> QueryRecordView {
        QueryRecordView {
            operation: self.operation@,
            principal: self.principal@,
            capability: opt_str(self.capability),
            target: self.target@,
            decision: self.decision@,
            code: self.code@,
        }
    }
}

pub open spec fn decision_word(s: PermissionState) -> Seq<char> {
    match s {
        PermissionState::Granted | PermissionState::GrantedPartial => "granted"@,
        PermissionState::Prompt => "prompt"@,
        _ => "denied"@,
    }
}

pub open spec fn opt_canonical(c: Option<Capability>) -> Option<Seq<char>> {
    match c {
        Some(g) => Some(canonical(g)),
        None => None,
    }
}

pub open spec fn query_record_spec(operation: Seq<char>, p: PrincipalView, req: Option<Capability>, state: PermissionState) -> QueryRecordView {
    QueryRecordView {
        operation,
        principal: p.label_spec(),
        capability: opt_canonical(req),
        target: match req {
            Some(r) => r.scope,
            None => Seq::empty(),
        },
        decision: decision_word(state),
        code: if operation == "revoke"@ {
            "OD-CAP-REQ-REVOKED"@
        } else {
            "OD-CAP-REQ-QUERY"@
        },
    }
}

fn canonical_of(req: Option<&Request>) -> (r: Option<String>)
    ensures
        opt_str(r) == opt_canonical(opt_req(req)),
{
    match req {
        Some(q) => Some(Grant::from_request(q).to_string_canonical()),
        None => None,
    }
}

fn query_record(operation: &str, p: &Principal, req: Option<&Request>, state: PermissionState) -> (r: DynamicQueryRecord)
    ensures
        r@ == query_record_spec(operation@, p@, opt_req(req), state),
{
    let decision = match state {
        PermissionState::Granted | PermissionState::GrantedPartial => "granted",
        PermissionState::Prompt => "prompt",
        _ => "denied",
    };
    let code = if crate::text::str_eq(operation, "revoke") {
        "OD-CAP-REQ-REVOKED"
    } else {
        "OD-CAP-REQ-QUERY"
    };
    DynamicQueryRecord {
        operation: to_owned(operation),
        principal: p.label(),
        capability: canonical_of(req),
        target: match req {
            Some(q) => q.target.clone(),
            None => String::new(),
        },
        decision: to_owned(decision),
        code: to_owned(code),
    }
}

pub open spec fn state_of_query(q: DynamicQueryState) -> PermissionState {
    match q {
        DynamicQueryState::Granted => PermissionState::Granted,
        DynamicQueryState::Prompt => PermissionState::Prompt,
        _ => PermissionState::Denied,
    }
}

/// What a dynamic query answers: nothing when the layer is disarmed or the
/// principal is ambient; otherwise the policy's state, denied for the
/// control plane and for an invalid policy.
pub open spec fn query_dynamic_spec(
    state: CapsecState,
    policy: Policy,
    d: DescriptorView,
    path_target: Seq<char>,
    in_control_root: bool,
) -> (Option<PermissionState>, Option<QueryRecordView>) {
    let p = state.principal@;
    let req = dynamic_request_spec(d, path_target);
    let control = req is Some && dynamic_control_spec(d, req->0, state.control_root, in_control_root);
    let q = if state.readiness.policy_invalid || control {
        DynamicQueryState::Denied
    } else {
        policy.query_spec(p, req)
    };
    if !state.armed || p.is_ambient() || q == DynamicQueryState::Ambient {
        (None, None)
    } else {
        (Some(state_of_query(q)), Some(query_record_spec("query"@, p, req, state_of_query(q))))
    }
}

pub open spec fn opt_query_record(r: Option<DynamicQueryRecord>) -> Option<QueryRecordView> {
    match r {
        Some(x) => Some(x@),
        None => None,
    }
}

pub fn oden_capsec_query_dynamic_permission(
    state: &CapsecState,
    policy: &Policy,
    desc: &OdenDynamicPermissionDescriptor,
    path_target: &str,
    in_control_root: bool,
) -> (r: (Option<PermissionState>, Option<DynamicQueryRecord>))
    requires
        policy.wf(),
    ensures
        (r.0, opt_query_record(r.1)) == query_dynamic_spec(*state, *policy, desc@, path_target@, in_control_root),
{
    if !state.armed {
        return (None, None);
    }
    let principal = &state.principal;
    if principal.is_ambient() {
        return (None, None);
    }
    let req = oden_dynamic_request(desc, path_target);
    let control = match &req {
        Some(q) => oden_capsec_is_dynamic_control_request(desc, q, state.control_root, in_control_root),
        None => false,
    };
    let query = if state.readiness.policy_invalid || control {
        DynamicQueryState::Denied
    } else {
        policy.query_dynamic(principal, req.as_ref())
    };
    let st = match query {
        DynamicQueryState::Ambient => return (None, None),
        DynamicQueryState::Granted => PermissionState::Granted,
        DynamicQueryState::Prompt => PermissionState::Prompt,
        DynamicQueryState::Denied => PermissionState::Denied,
    };
    let rec = query_record("query", principal, req.as_ref(), st);
    (Some(st), Some(rec))
}

/// What a dynamic revocation answers, and what it records.
pub open spec fn revoke_dynamic_spec(
    state: CapsecState,
    policy: Policy,
    d: DescriptorView,
    path_target: Seq<char>,
    in_control_root: bool,
) -> (Option<PermissionState>, Option<QueryRecordView>) {
    let p = state.principal@;
    let req = dynamic_request_spec(d, path_target);
    if !state.armed || p.is_ambient() {
        (None, None)
    } else if req is None {
        (Some(PermissionState::Denied), Some(query_record_spec("revoke"@, p, None, PermissionState::Denied)))
    } else if dynamic_control_spec(d, req->0, state.control_root, in_control_root) {
        (Some(PermissionState::Denied), Some(query_record_spec("revoke"@, p, req, PermissionState::Denied)))
    } else if policy.mode == Mode::Permissive {
        (Some(PermissionState::Granted), Some(query_record_spec("revoke"@, p, req, PermissionState::Granted)))
    } else {
        (Some(PermissionState::Denied), Some(query_record_spec("revoke"@, p, req, PermissionState::Denied)))
    }
}

pub fn oden_capsec_revoke_dynamic_permission(
    state: &CapsecState,
    policy: &mut Policy,
    desc: &OdenDynamicPermissionDescriptor,
    path_target: &str,
    in_control_root: bool,
) -> (r: (Option<PermissionState>, Option<DynamicQueryRecord>))
    requires
        old(policy).wf(),
    ensures
        final(policy).wf(),
        final(policy).same_envelopes(*old(policy)),
        (r.0, opt_query_record(r.1)) == revoke_dynamic_spec(*state, *old(policy), desc@, path_target@, in_control_root),
        r.0 == Some(PermissionState::Denied) && dynamic_request_spec(desc@, path_target@) is Some
            && state.principal@.selector() is Some && !dynamic_control_spec(
            desc@,
            dynamic_request_spec(desc@, path_target@)->0,
            state.control_root,
            in_control_root,
        ) ==> !final(policy).grants_spec(state.principal@, dynamic_request_spec(desc@, path_target@)->0),
{
    if !state.armed {
        return (None, None);
    }
    let principal = &state.principal;
    if principal.is_ambient() {
        return (None, None);
    }
    let req = match oden_dynamic_request(desc, path_target) {
        None => {
            let rec = query_record("revoke", principal, None, PermissionState::Denied);
            return (Some(PermissionState::Denied), Some(rec));
        },
        Some(q) => q,
    };
    let st = if oden_capsec_is_dynamic_control_request(desc, &req, state.control_root, in_control_root) {
        PermissionState::Denied
    } else {
        match policy.revoke_dynamic(principal, &req) {
            DynamicQueryState::Ambient => return (None, None),
            DynamicQueryState::Granted => PermissionState::Granted,
            DynamicQueryState::Prompt => PermissionState::Prompt,
            DynamicQueryState::Denied => PermissionState::Denied,
        }
    };
    let rec = query_record("revoke", principal, Some(&req), st);
    (Some(st), Some(rec))
}

/// What the deciders of a dynamic request within a ceiling are told: the
/// descriptor's name, the request's target, the principal's label, the
/// canonical capability and ceiling, and the sentence the user reads.
#[derive(Debug, PartialEq, Eq)]
pub struct DynamicQuestion {
    pub name: String,
    pub target: String,
    pub principal: String,
    pub capability: String,
    pub ceiling: String,
    pub message: String,
}

pub struct DynamicQuestionView {
    pub name: Seq<char>,
    pub target: Seq<char>,
    pub principal: Seq<char>,
    pub capability: Seq<char>,
    pub ceiling: Seq<char>,
    pub message: Seq<char>,
}

impl View for DynamicQuestion {
    type V = DynamicQuestionView;

    open spec fn view(&self) -> DynamicQuestionView {
        DynamicQuestionView {
            name: self.name@,
            target: self.target@,
            principal: self.principal@,
            capability: self.capability@,
            ceiling: self.ceiling@,
            message: self.message@,
        }
    }
}

/// The question about `req`, asked for `p` under `ceiling` by a descriptor
/// named `name`.
pub open spec fn dynamic_question_spec(
    name: Seq<char>,
    p: PrincipalView,
    req: Capability,
    ceiling: Capability,
) -> DynamicQuestionView {
    DynamicQuestionView {
        name,
        target: req.scope,
        principal: p.label_spec(),
        capability: canonical(req),
        ceiling: canonical(ceiling),
        message: "package "@ + p.label_spec() + " requests "@ + canonical(req)
            + " within its declared escalation ceiling "@ + canonical(ceiling) + " for this run"@,
    }
}

/// Builds the question the broker and the user are asked.
pub fn dynamic_question(name: &str, principal: &Principal, req: &Request, ceiling: &Grant) -> (r: DynamicQuestion)
    ensures
        r@ == dynamic_question_spec(name@, principal@, req@, ceiling@),
{
    let capability = Grant::from_request(req).to_string_canonical();
    let ceiling_label = ceiling.to_string_canonical();
    let principal_label = principal.label();
    let m1 = three("package ", principal_label.as_str(), " requests ");
    let m2 = three(m1.as_str(), capability.as_str(), " within its declared escalation ceiling ");
    let message = three(m2.as_str(), ceiling_label.as_str(), " for this run");
    DynamicQuestion {
        name: to_owned(name),
        target: req.target.clone(),
        principal: principal_label,
        capability,
        ceiling: ceiling_label,
        message,
    }
}

/// The deciders a dynamic request within a ceiling may consult: a broker,
/// and the user. Implemented by the embedder; nothing is assumed of their
/// answers.
pub trait DynamicDeciders {
    fn broker(&mut self, question: &DynamicQuestion) -> Option<BrokerResponse>;

    fn prompt_available(&mut self) -> bool;

    fn prompt(&mut self, message: &str, name: &str, api_name: Option<&str>, is_unary: bool) -> PromptResponse;
}

/// The decider that answered and whether it allowed: the broker if it
/// answered, else the user if asked, else nobody.
pub open spec fn answer_of(broker: Option<BrokerResponse>, reply: Option<PromptResponse>) -> Option<
    (DynamicDecider, bool),
> {
    match broker {
        Some(a) => Some((DynamicDecider::Broker, a is Allow)),
        None => match reply {
            Some(x) => Some((DynamicDecider::Interactive, x == PromptResponse::Allow || x == PromptResponse::AllowAll)),
            None => None,
        },
    }
}

/// The outcome of a request within `ceiling` once the deciders answered.
pub open spec fn answered_spec(
    policy: Policy,
    p: PrincipalView,
    req: Capability,
    ceiling: Capability,
    broker: Option<BrokerResponse>,
    reply: Option<PromptResponse>,
) -> ResultView {
    match answer_of(broker, reply) {
        Some((decider, allowed)) => policy.complete_spec(p, req, ceiling, decider, allowed),
        None => match p.selector() {
            None => denied_view(DynamicRequestCode::Unattributed, Some(ceiling), false),
            Some(sel) => denied_view(DynamicRequestCode::Unanswered, Some(ceiling), policy.session.memoized_spec(sel, req)),
        },
    }
}

/// Records what the deciders answered to a request within `ceiling`: the
/// broker's answer first, then the user's reply, and an unanswered
/// denial when neither came.
pub fn oden_capsec_answer_dynamic_request(
    policy: &mut Policy,
    principal: &Principal,
    req: &Request,
    ceiling: Grant,
    broker: Option<BrokerResponse>,
    reply: Option<PromptResponse>,
) -> (r: DynamicRequestResult)
    requires
        old(policy).wf(),
    ensures
        final(policy).wf(),
        final(policy).same_envelopes(*old(policy)),
        r@ == answered_spec(*old(policy), principal@, req@, ceiling@, broker, reply),
        r.state == DynamicPermissionState::Granted ==> final(policy).grants_spec(principal@, req@),
        !(answer_of(broker, reply) matches Some((_, true))) ==> same_verdicts(old(policy).session, final(policy).session),
        old(policy).evaluate_spec(principal@, Some(req@)) is NeedsDecision ==> match answer_of(broker, reply) {
            Some((_, false)) => final(policy).settled_as(principal@, req@, DynamicRequestCode::Refused),
            None => final(policy).settled_as(principal@, req@, DynamicRequestCode::Unanswered),
            Some((_, true)) => true,
        },
{
    let answered = match broker {
        Some(a) => Some(
            (
                DynamicDecider::Broker,
                match a {
                    BrokerResponse::Allow => true,
                    _ => false,
                },
            ),
        ),
        None => match reply {
            Some(x) => Some(
                (
                    DynamicDecider::Interactive,
                    match x {
                        PromptResponse::Allow | PromptResponse::AllowAll => true,
                        PromptResponse::Deny => false,
                    },
                ),
            ),
            None => None,
        },
    };
    match answered {
        Some((decider, allowed)) => policy.complete_dynamic_request(principal, req, ceiling, decider, allowed),
        None => policy.unanswered_dynamic_request(principal, req, ceiling),
    }
}

/// An audit record of a dynamic request.
#[derive(Debug, PartialEq, Eq)]
pub struct DynamicRequestRecord {
    pub operation: String,
    pub principal: String,
    pub principal_set: Vec<String>,
    pub capability: Option<String>,
    pub target: String,
    pub decision: String,
    pub code: String,
    pub decider: Option<String>,
    pub session_grant: Option<String>,
    pub ceiling: Option<String>,
    pub memoized: bool,
    pub suggestion: Option<String>,
}

pub struct RequestRecordView {
    pub operation: Seq<char>,
    pub principal: Seq<char>,
    pub principal_set: Seq<Seq<char>>,
    pub capability: Option<Seq<char>>,
    pub target: Seq<char>,
    pub decision: Seq<char>,
    pub code: Seq<char>,
    pub decider: Option<Seq<char>>,
    pub session_grant: Option<Seq<char>>,
    pub ceiling: Option<Seq<char>>,
    pub memoized: bool,
    pub suggestion: Option<Seq<char>>,
}

impl View for DynamicRequestRecord {
    type V = RequestRecordView;

    open spec fn view(&self) -> RequestRecordView {
        RequestRecordView {
            operation: self.operation@,
            principal: self.principal@,
            principal_set: strings_view(self.principal_set@),
            capability: opt_str(self.capability),
            target: self.target@,
            decision: self.decision@,
            code: self.code@,
            decider: opt_str(self.decider),
            session_grant: opt_str(self.session_grant),
            ceiling: opt_str(self.ceiling),
            memoized: self.memoized,
            suggestion: opt_str(self.suggestion),
        }
    }
}

pub open spec fn request_record_spec(
    operation: Seq<char>,
    p: PrincipalView,
    set: Seq<PrincipalView>,
    req: Option<Capability>,
    v: ResultView,
) -> RequestRecordView {
    let capability = opt_canonical(req);
    let session_grant = opt_canonical(v.session_grant);
    RequestRecordView {
        operation,
        principal: p.label_spec(),
        principal_set: labels_of(set),
        capability,
        target: match req {
            Some(r) => r.scope,
            None => Seq::empty(),
        },
        decision: if v.state == DynamicPermissionState::Granted {
            "granted"@
        } else {
            "denied"@
        },
        code: v.code.spec_str(),
        decider: match v.decider {
            Some(d) => Some(d.spec_str()),
            None => None,
        },
        session_grant,
        ceiling: opt_canonical(v.ceiling),
        memoized: v.memoized,
        suggestion: match v.code {
            DynamicRequestCode::Granted => session_grant,
            DynamicRequestCode::AboveCeiling | DynamicRequestCode::Unanswered | DynamicRequestCode::Refused => capability,
            _ => None,
        },
    }
}

fn opt_grant_canonical(g: &Option<Grant>) -> (r: Option<String>)
    ensures
        opt_str(r) == opt_canonical(opt_cap(*g)),
{
    match g {
        Some(x) => Some(x.to_string_canonical()),
        None => None,
    }
}

fn request_record(
    operation: &str,
    p: &Principal,
    set: &Vec<Principal>,
    req: Option<&Request>,
    result: &DynamicRequestResult,
) -> (r: DynamicRequestRecord)
    ensures
        r@ == request_record_spec(operation@, p@, principal_views(set@), opt_req(req), result@),
{
    let capability = canonical_of(req);
    let session_grant = opt_grant_canonical(&result.session_grant);
    let suggestion = match result.code {
        DynamicRequestCode::Granted => opt_grant_canonical(&result.session_grant),
        DynamicRequestCode::AboveCeiling | DynamicRequestCode::Unanswered | DynamicRequestCode::Refused => canonical_of(
            req,
        ),
        _ => None,
    };
    DynamicRequestRecord {
        operation: to_owned(operation),
        principal: p.label(),
        principal_set: labels(set),
        capability,
        target: match req {
            Some(q) => q.target.clone(),
            None => String::new(),
        },
        decision: to_owned(
            if result.state == DynamicPermissionState::Granted {
                "granted"
            } else {
                "denied"
            },
        ),
        code: to_owned(result.code.as_str()),
        decider: match result.decider {
            Some(d) => Some(to_owned(d.as_str())),
            None => None,
        },
        session_grant,
        ceiling: opt_grant_canonical(&result.ceiling),
        memoized: result.memoized,
        suggestion,
    }
}

pub open spec fn terminal_denial(code: DynamicRequestCode) -> ResultView {
    denied_view(code, None, false)
}

pub open spec fn state_of_result(v: ResultView) -> PermissionState {
    if v.state == DynamicPermissionState::Granted {
        PermissionState::Granted
    } else {
        PermissionState::Denied
    }
}

pub open spec fn opt_request_record(r: Option<DynamicRequestRecord>) -> Option<RequestRecordView> {
    match r {
        Some(x) => Some(x@),
        None => None,
    }
}

/// How far the deciders of a dynamic request within a ceiling have
/// answered.
pub enum DeciderProgress {
    /// Nobody was asked yet.
    Start,
    /// The broker was asked, and answered this (nothing when it had no
    /// answer).
    BrokerAnswered(Option<BrokerResponse>),
    /// The broker had no answer and the user was then asked, and replied
    /// this (nothing when no prompt was available).
    UserAnswered(Option<PromptResponse>),
}

/// The next step of a dynamic request.
pub enum DynamicRequestStep {
    /// The request is answered: the state, and the audit record.
    Done(Option<PermissionState>, Option<DynamicRequestRecord>),
    /// The broker is to be asked this question.
    AskBroker(DynamicQuestion),
    /// The user is to be asked this question, if a prompt is available.
    AskUser(DynamicQuestion),
}

/// The broker's answer and the user's reply that `progress` records.
pub open spec fn progress_answers(progress: DeciderProgress) -> (Option<BrokerResponse>, Option<PromptResponse>) {
    match progress {
        DeciderProgress::Start => (None, None),
        DeciderProgress::BrokerAnswered(b) => (b, None),
        DeciderProgress::UserAnswered(x) => (None, x),
    }
}

/// The step answers the request with outcome `v`.
pub open spec fn step_done(
    r: DynamicRequestStep,
    p: PrincipalView,
    set: Seq<PrincipalView>,
    req: Option<Capability>,
    v: ResultView,
) -> bool {
    r matches DynamicRequestStep::Done(a, b) && a == Some(state_of_result(v)) && opt_request_record(b) == Some(
        request_record_spec("request"@, p, set, req, v),
    )
}

/// The step answers nothing: the request is not the capability layer's.
pub open spec fn step_silent(r: DynamicRequestStep) -> bool {
    r matches DynamicRequestStep::Done(a, b) && a is None && b is None
}

/// One step of a dynamic request, given how far its deciders have
/// answered: a request that the control plane, an invalid policy or the
/// policy's evaluation settles is answered at once; one within a ceiling
/// asks the broker, then, when the broker has no answer, the user, and is
/// answered from what they said.
pub fn oden_capsec_dynamic_request_step(
    state: &CapsecState,
    policy: &mut Policy,
    desc: &OdenDynamicPermissionDescriptor,
    path_target: &str,
    in_control_root: bool,
    progress: DeciderProgress,
) -> (r: DynamicRequestStep)
    requires
        old(policy).wf(),
    ensures
        final(policy).wf(),
        final(policy).same_envelopes(*old(policy)),
        !state.armed || state.principal@.is_ambient() ==> step_silent(r) && *final(policy) == *old(policy),
        state.armed && !state.principal@.is_ambient() ==> ({
            let p = state.principal@;
            let set = principal_views(state.principal_set@);
            let req = dynamic_request_spec(desc@, path_target@);
            let control = req is Some && dynamic_control_spec(desc@, req->0, state.control_root, in_control_root);
            if control || state.readiness.policy_invalid {
                let v = terminal_denial(
                    if control {
                        DynamicRequestCode::DenyCeiling
                    } else {
                        DynamicRequestCode::Ambiguous
                    },
                );
                *final(policy) == *old(policy) && step_done(r, p, set, req, v)
            } else {
                let e = old(policy).evaluate_spec(p, req);
                match e {
                    EvaluationView::Ambient => step_silent(r) && final(policy).session == old(policy).session,
                    EvaluationView::Terminal(v) => {
                        &&& step_done(r, p, set, req, v)
                        &&& !may_write_allow(e) ==> same_verdicts(old(policy).session, final(policy).session)
                        &&& auto_granted(e) ==> final(policy).grants_spec(p, req->0)
                        &&& fresh_denial(e) ==> denial_remembered(
                            final(policy).session,
                            p.selector()->0,
                            req->0,
                            v.code,
                        )
                        &&& may_write_allow(e) ==> grants_widen_at_most(
                            *old(policy),
                            *final(policy),
                            p.selector()->0,
                            req->0,
                        )
                    },
                    EvaluationView::NeedsDecision { ceiling } => {
                        let question = dynamic_question_spec(desc@.name, p, req->0, ceiling);
                        match progress {
                            DeciderProgress::Start => final(policy).session == old(policy).session && (
                            r matches DynamicRequestStep::AskBroker(q) && q@ == question),
                            DeciderProgress::BrokerAnswered(None) => final(policy).session == old(policy).session && (
                            r matches DynamicRequestStep::AskUser(q) && q@ == question),
                            _ => {
                                let (b, x) = progress_answers(progress);
                                let v = answered_spec(*old(policy), p, req->0, ceiling, b, x);
                                &&& step_done(r, p, set, req, v)
                                &&& answer_of(b, x) matches Some((_, false)) ==> final(policy).settled_as(
                                    p,
                                    req->0,
                                    DynamicRequestCode::Refused,
                                )
                                &&& answer_of(b, x) is None ==> final(policy).settled_as(
                                    p,
                                    req->0,
                                    DynamicRequestCode::Unanswered,
                                )
                                &&& v.state == DynamicPermissionState::Granted ==> final(policy).grants_spec(p, req->0)
                            },
                        }
                    },
                }
            }
        }),
{
    if !state.armed {
        return DynamicRequestStep::Done(None, None);
    }
    let principal = &state.principal;
    if principal.is_ambient() {
        return DynamicRequestStep::Done(None, None);
    }
    let req = oden_dynamic_request(desc, path_target);
    let control = match &req {
        Some(q) => oden_capsec_is_dynamic_control_request(desc, q, state.control_root, in_control_root),
        None => false,
    };
    let result = if control {
        DynamicRequestResult {
            state: DynamicPermissionState::Denied,
            code: DynamicRequestCode::DenyCeiling,
            decider: None,
            session_grant: None,
            ceiling: None,
            memoized: false,
        }
    } else if state.readiness.policy_invalid {
        DynamicRequestResult {
            state: DynamicPermissionState::Denied,
            code: DynamicRequestCode::Ambiguous,
            decider: None,
            session_grant: None,
            ceiling: None,
            memoized: false,
        }
    } else {
        let ghost before = *policy;
        match policy.evaluate_dynamic_request(principal, req.as_ref()) {
            DynamicRequestEvaluation::Ambient => return DynamicRequestStep::Done(None, None),
            DynamicRequestEvaluation::Terminal(result) => result,
            DynamicRequestEvaluation::NeedsDecision { ceiling } => {
                let q = match &req {
                    Some(q) => q,
                    None => {
                        assert(false);
                        return DynamicRequestStep::Done(None, None);
                    },
                };
                let ghost cv = ceiling@;
                let ghost (gb, gx) = progress_answers(progress);
                let (broker, reply) = match progress {
                    DeciderProgress::Start => {
                        return DynamicRequestStep::AskBroker(dynamic_question(desc.name.as_str(), principal, q, &ceiling));
                    },
                    DeciderProgress::BrokerAnswered(None) => {
                        return DynamicRequestStep::AskUser(dynamic_question(desc.name.as_str(), principal, q, &ceiling));
                    },
                    DeciderProgress::BrokerAnswered(Some(a)) => (Some(a), None),
                    DeciderProgress::UserAnswered(x) => (None, x),
                };
                assert(broker == gb && reply == gx);
                let ghost mid = *policy;
                let v = oden_capsec_answer_dynamic_request(policy, principal, q, ceiling, broker, reply);
                assert(mid.session == before.session);
                assert(mid.evaluate_spec(principal@, Some(q@)) == before.evaluate_spec(principal@, Some(q@)));
                assert(v@ == answered_spec(before, principal@, q@, cv, broker, reply));
                v
            },
        }
    };
    let rec = request_record("request", principal, &state.principal_set, req.as_ref(), &result);
    let st = if result.state == DynamicPermissionState::Granted {
        PermissionState::Granted
    } else {
        PermissionState::Denied
    };
    DynamicRequestStep::Done(Some(st), Some(rec))
}

/// A dynamic request: settled by the control plane, an invalid policy, or
/// the policy's evaluation, or decided by the broker, then the user, and
/// left unanswered when neither can answer. The deciders are consulted
/// only for a request within a ceiling.
pub fn oden_capsec_request_dynamic_permission<D: DynamicDeciders>(
    state: &CapsecState,
    policy: &mut Policy,
    desc: &OdenDynamicPermissionDescriptor,
    path_target: &str,
    in_control_root: bool,
    deciders: &mut D,
) -> (r: (Option<PermissionState>, Option<DynamicRequestRecord>))
    requires
        old(policy).wf(),
    ensures
        final(policy).wf(),
        final(policy).same_envelopes(*old(policy)),
        !state.armed || state.principal@.is_ambient() ==> {
            &&& r.0 is None
            &&& r.1 is None
            &&& *final(policy) == *old(policy)
            &&& *final(deciders) == *old(deciders)
        },
        state.armed && !state.principal@.is_ambient() ==> ({
            let p = state.principal@;
            let req = dynamic_request_spec(desc@, path_target@);
            let control = req is Some && dynamic_control_spec(desc@, req->0, state.control_root, in_control_root);
            if control || state.readiness.policy_invalid {
                let v = terminal_denial(
                    if control {
                        DynamicRequestCode::DenyCeiling
                    } else {
                        DynamicRequestCode::Ambiguous
                    },
                );
                &&& *final(policy) == *old(policy)
                &&& *final(deciders) == *old(deciders)
                &&& r.0 == Some(state_of_result(v))
                &&& opt_request_record(r.1) == Some(
                    request_record_spec("request"@, p, principal_views(state.principal_set@), req, v),
                )
            } else {
                let e = old(policy).evaluate_spec(p, req);
                match e {
                    EvaluationView::Ambient => {
                        &&& r.0 is None
                        &&& r.1 is None
                        &&& final(policy).session == old(policy).session
                        &&& *final(deciders) == *old(deciders)
                    },
                    EvaluationView::Terminal(v) => {
                        &&& *final(deciders) == *old(deciders)
                        &&& r.0 == Some(state_of_result(v))
                        &&& opt_request_record(r.1) == Some(
                            request_record_spec("request"@, p, principal_views(state.principal_set@), req, v),
                        )
                        &&& !may_write_allow(e) ==> same_verdicts(old(policy).session, final(policy).session)
                        &&& auto_granted(e) ==> final(policy).grants_spec(p, req->0)
                        &&& fresh_denial(e) ==> denial_remembered(
                            final(policy).session,
                            p.selector()->0,
                            req->0,
                            v.code,
                        )
                        &&& may_write_allow(e) ==> grants_widen_at_most(
                            *old(policy),
                            *final(policy),
                            p.selector()->0,
                            req->0,
                        )
                    },
                    EvaluationView::NeedsDecision { ceiling } => exists|
                        broker: Option<BrokerResponse>,
                        reply: Option<PromptResponse>,
                    |
                        #![trigger answered_spec(*old(policy), p, req->0, ceiling, broker, reply)]
                        {
                            &&& broker is Some ==> reply is None
                            &&& answer_of(broker, reply) matches Some((_, false)) ==> final(policy).settled_as(
                                p,
                                req->0,
                                DynamicRequestCode::Refused,
                            )
                            &&& answer_of(broker, reply) is None ==> final(policy).settled_as(
                                p,
                                req->0,
                                DynamicRequestCode::Unanswered,
                            )
                            &&& r.0 == Some(PermissionState::Granted) ==> final(policy).grants_spec(p, req->0)
                            &&& r.0 == Some(state_of_result(answered_spec(*old(policy), p, req->0, ceiling, broker, reply)))
                            &&& opt_request_record(r.1) == Some(
                                request_record_spec(
                                    "request"@,
                                    p,
                                    principal_views(state.principal_set@),
                                    req,
                                    answered_spec(*old(policy), p, req->0, ceiling, broker, reply),
                                ),
                            )
                        },
                }
            }
        }),
{
    let ghost before = *policy;
    let first = oden_capsec_dynamic_request_step(
        state,
        policy,
        desc,
        path_target,
        in_control_root,
        DeciderProgress::Start,
    );
    let question = match first {
        DynamicRequestStep::Done(a, b) => return (a, b),
        DynamicRequestStep::AskBroker(q) => q,
        DynamicRequestStep::AskUser(_) => {
            assert(false);
            return (None, None);
        },
    };
    let ghost p = state.principal@;
    let ghost req = dynamic_request_spec(desc@, path_target@);
    let ghost ceiling = before.evaluate_spec(p, req)->NeedsDecision_ceiling;
    let ghost mid = *policy;
    assert(mid.evaluate_spec(p, req) == before.evaluate_spec(p, req));
    let broker = deciders.broker(&question);
    let second = oden_capsec_dynamic_request_step(
        state,
        policy,
        desc,
        path_target,
        in_control_root,
        DeciderProgress::BrokerAnswered(broker),
    );
    let question = match second {
        DynamicRequestStep::Done(a, b) => {
            assert(answered_spec(mid, p, req->0, ceiling, broker, None) == answered_spec(
                before,
                p,
                req->0,
                ceiling,
                broker,
                None,
            ));
            return (a, b);
        },
        DynamicRequestStep::AskUser(q) => q,
        DynamicRequestStep::AskBroker(_) => {
            assert(false);
            return (None, None);
        },
    };
    let ghost mid2 = *policy;
    assert(mid2.evaluate_spec(p, req) == before.evaluate_spec(p, req));
    let reply = if deciders.prompt_available() {
        Some(deciders.prompt(question.message.as_str(), "capsec", Some("Deno.permissions.request"), false))
    } else {
        None
    };
    let third = oden_capsec_dynamic_request_step(
        state,
        policy,
        desc,
        path_target,
        in_control_root,
        DeciderProgress::UserAnswered(reply),
    );
    match third {
        DynamicRequestStep::Done(a, b) => {
            assert(answered_spec(mid2, p, req->0, ceiling, None, reply) == answered_spec(
                before,
                p,
                req->0,
                ceiling,
                None,
                reply,
            ));
            (a, b)
        },
        _ => {
            assert(false);
            (None, None)
        },
    }
}

/// The handle id a text names: hexadecimal, surrounding white space
/// ignored.
pub open spec fn handle_id_of(hex: Seq<char>) -> Option<u128> {
    parsed_hex(trimmed(hex))
}

/// The handle id `hex` names.
fn handle_parse_id(hex: &str) -> (r: Option<u128>)
    ensures
        r == handle_id_of(hex@),
{
    parse_hex_u128(trim(hex).as_str())
}

pub open spec fn handle_denial_spec(label: Seq<char>, action: Seq<char>, cap: Seq<char>, reason: Seq<char>) -> (
    ErrorView,
    RecordView,
) {
    (
        capsec_error(
            "handle "@ + action + " for "@ + debug_quoted(cap),
            "oden capsec: principal \""@ + label + "\" cannot "@ + action + " handle "@ + cap + " ("@ + reason + ")"@,
        ),
        record_spec(label, "handle"@, action, cap, "DENY("@ + reason + ")"@, None),
    )
}

fn handle_denied(label: &str, action: &str, cap: &str, reason: &str) -> (r: (PermissionDeniedError, AuditRecord))
    ensures
        (r.0@, r.1@) == handle_denial_spec(label@, action@, cap@, reason@),
{
    let verdict = three("DENY(", reason, ")");
    let rec = record(label, "handle", action, cap, verdict.as_str(), None);
    let access = three("handle ", action, " for ");
    let access = concat(access.as_str(), debug_str(cap).as_str());
    let m1 = three("oden capsec: principal \"", label, "\" cannot ");
    let m2 = three(m1.as_str(), action, " handle ");
    let m3 = three(m2.as_str(), cap, " (");
    let m4 = three(m3.as_str(), reason, ")");
    (capsec_denial(access, m4), rec)
}

pub open spec fn inactive_error() -> ErrorView {
    capsec_error(
        "oden handle operation"@,
        "oden capsec: authority-flow handles require an armed capsec policy"@,
    )
}

fn handle_inactive() -> (r: PermissionDeniedError)
    ensures
        r@ == inactive_error(),
{
    capsec_denial(
        to_owned("oden handle operation"),
        to_owned("oden capsec: authority-flow handles require an armed capsec policy"),
    )
}

pub open spec fn string_result_view(r: Result<String, PermissionDeniedError>) -> Result<Seq<char>, ErrorView> {
    match r {
        Ok(s) => Ok(s@),
        Err(e) => Err(e@),
    }
}

/// A handle's canonical capability text.
pub open spec fn cap_text(g: Capability) -> Seq<char> {
    g.family.spec_name() + ":"@ + g.action + ":"@ + g.scope
}

fn cap_text_exec(g: &Grant) -> (r: String)
    ensures
        r@ == cap_text(g@),
{
    let a = three(g.family.name(), ":", g.action.as_str());
    three(a.as_str(), ":", g.scope.as_str())
}

/// Mints a handle for a capability the acting principal holds now. The
/// capability text is taken with its file-system scopes already resolved
/// (`resolved`); `cap_str` is the text as written, for refusals.
pub fn oden_capsec_handle_mint(
    state: &CapsecState,
    policy: &Policy,
    table: &mut HandleTable,
    cap_str: &str,
    resolved: &str,
) -> (r: (Result<String, PermissionDeniedError>, Vec<AuditRecord>))
    requires
        policy.wf(),
        old(table).wf(),
    ensures
        final(table).wf(),
        !state.armed ==> string_result_view(r.0) == Err::<Seq<char>, ErrorView>(inactive_error()) && records_view(r.1@)
            == Seq::<RecordView>::empty() && final(table).entries@ == old(table).entries@,
        state.armed ==> ({
            let p = state.principal@;
            match parse_grant(resolved@) {
                None => {
                    let d = handle_denial_spec(p.label_spec(), "mint"@, cap_str@, "unparseable capability"@);
                    &&& string_result_view(r.0) == Err::<Seq<char>, ErrorView>(d.0)
                    &&& records_view(r.1@) == seq![d.1]
                    &&& final(table).entries@ == old(table).entries@
                },
                Some(g) => if !(p.is_ambient() || policy.mode == Mode::Permissive || policy.grants_spec(p, g)) {
                    let d = handle_denial_spec(p.label_spec(), "mint"@, cap_text(g), "mint exceeds holding"@);
                    &&& string_result_view(r.0) == Err::<Seq<char>, ErrorView>(d.0)
                    &&& records_view(r.1@) == seq![d.1]
                    &&& final(table).entries@ == old(table).entries@
                } else {
                    exists|id: u128|
                        {
                            &&& #[trigger] final(table).entry(id) matches Some(e)
                            &&& e.grant@ == g && e.cap_str@ == cap_text(g) && e.minter@ == p.label_spec()
                            &&& e.parent is None && !e.revoked
                            &&& string_result_view(r.0) == Ok::<Seq<char>, ErrorView>(hex32(id))
                            &&& records_view(r.1@) == seq![
                                record_spec(p.label_spec(), "handle"@, "mint"@, cap_text(g), "allow(mint)"@, None),
                            ]
                            &&& forall|other: u128| other != id ==> #[trigger] final(table).entry(other) == old(table).entry(other)
                        }
                },
            }
        }),
{
    if !state.armed {
        return (Err(handle_inactive()), none());
    }
    let principal = &state.principal;
    let label = principal.label();
    let grant = match Grant::parse(resolved) {
        Err(_) => {
            let (e, rec) = handle_denied(label.as_str(), "mint", cap_str, "unparseable capability");
            return (Err(e), one(rec));
        },
        Ok(g) => g,
    };
    let canonical = cap_text_exec(&grant);
    let req = Request { family: grant.family, action: grant.action.clone(), target: grant.scope.clone() };
    let holds = principal.is_ambient() || policy.mode == Mode::Permissive || policy.grants(principal, &req);
    if !holds {
        let (e, rec) = handle_denied(label.as_str(), "mint", canonical.as_str(), "mint exceeds holding");
        return (Err(e), one(rec));
    }
    let ghost gv = grant@;
    let id = insert_handle(table, label.clone(), grant, canonical.clone(), None);
    let rec = record(label.as_str(), "handle", "mint", canonical.as_str(), "allow(mint)", None);
    (Ok(hex32_string(id)), one(rec))
}

/// Derives a narrower handle from a live parent the caller possesses: the
/// child's capability must be covered by the parent's.
pub fn oden_capsec_handle_scoped(
    state: &CapsecState,
    table: &mut HandleTable,
    parent_hex: &str,
    cap_str: &str,
    resolved: &str,
) -> (r: (Result<String, PermissionDeniedError>, Vec<AuditRecord>))
    requires
        old(table).wf(),
    ensures
        final(table).wf(),
        !state.armed ==> string_result_view(r.0) == Err::<Seq<char>, ErrorView>(inactive_error()) && records_view(r.1@)
            == Seq::<RecordView>::empty(),
        r.0 is Err ==> final(table).entries@ == old(table).entries@,
        r.0 is Ok ==> state.armed && parse_grant(resolved@) is Some && handle_id_of(parent_hex@) is Some && (exists|id: u128|
            {
                &&& #[trigger] final(table).entry(id) matches Some(e)
                &&& e.grant@ == parse_grant(resolved@)->0 && e.parent == handle_id_of(parent_hex@) && !e.revoked
                &&& string_result_view(r.0) == Ok::<Seq<char>, ErrorView>(hex32(id))
                &&& forall|other: u128| other != id ==> #[trigger] final(table).entry(other) == old(table).entry(other)
            }),
        r.0 is Ok ==> (old(table).lookup_spec(handle_id_of(parent_hex@)->0) matches LookupView::Live { grant, .. }
            && grant_covers(grant, parse_grant(resolved@)->0)),
        state.armed && parse_grant(resolved@) is Some && handle_id_of(parent_hex@) is Some && (old(table).lookup_spec(
            handle_id_of(parent_hex@)->0,
        ) matches LookupView::Live { grant, .. } && grant_covers(grant, parse_grant(resolved@)->0)) ==> r.0 is Ok,
{
    if !state.armed {
        return (Err(handle_inactive()), none());
    }
    let label = state.principal.label();
    let grant = match Grant::parse(resolved) {
        Err(_) => {
            let (e, rec) = handle_denied(label.as_str(), "scoped", cap_str, "unparseable capability");
            return (Err(e), one(rec));
        },
        Ok(g) => g,
    };
    let canonical = cap_text_exec(&grant);
    let parent_id = match handle_parse_id(parent_hex) {
        None => {
            let (e, rec) = handle_denied(label.as_str(), "scoped", canonical.as_str(), "unknown parent handle");
            return (Err(e), one(rec));
        },
        Some(i) => i,
    };
    let parent_grant = match table.parent_grant_if_live(parent_id) {
        None => {
            let (e, rec) = handle_denied(label.as_str(), "scoped", canonical.as_str(), "parent handle revoked or unknown");
            return (Err(e), one(rec));
        },
        Some(g) => g,
    };
    let req = Request { family: grant.family, action: grant.action.clone(), target: grant.scope.clone() };
    let mut parents = Vec::new();
    parents.push(parent_grant);
    let covered = covers(parents.as_slice(), &req);
    proof {
        if covered {
            let i = choose|i: int| 0 <= i < grants_view(parents@).len() && grant_covers(grants_view(parents@)[i], req@);
            assert(i == 0);
        } else {
            assert(!grant_covers(grants_view(parents@)[0], req@));
        }
    }
    if !covered {
        let (e, rec) = handle_denied(label.as_str(), "scoped", canonical.as_str(), "scoped wider than parent");
        return (Err(e), one(rec));
    }
    let id = insert_handle(table, label.clone(), grant, canonical.clone(), Some(parent_id));
    let rec = record(label.as_str(), "handle", "scoped", canonical.as_str(), "allow(scoped)", None);
    (Ok(hex32_string(id)), one(rec))
}

/// Opens a possession window on a live handle: its capability joins the
/// window. The first use by a possessor other than the minter is recorded
/// as a transfer.
pub fn oden_capsec_handle_enter(
    state: &CapsecState,
    table: &mut HandleTable,
    window: &mut ActiveHandles,
    hex: &str,
) -> (r: (Result<(), PermissionDeniedError>, Vec<AuditRecord>))
    requires
        old(table).wf(),
    ensures
        final(table).wf(),
        !state.armed ==> err_view(r.0) == Some(inactive_error()),
        r.0 is Ok <==> (state.armed && handle_id_of(hex@) is Some && old(table).lookup_spec(handle_id_of(hex@)->0) is Live),
        r.0 is Ok ==> (old(table).lookup_spec(handle_id_of(hex@)->0) matches LookupView::Live { grant, .. }
            && grants_view(final(window).stack@) == grants_view(old(window).stack@).push(grant)),
        r.0 is Err ==> final(window).stack@ == old(window).stack@,
{
    if !state.armed {
        return (Err(handle_inactive()), none());
    }
    let label = state.principal.label();
    let id = match handle_parse_id(hex) {
        None => {
            let (e, rec) = handle_denied(label.as_str(), "use", "?", "forged handle id");
            return (Err(e), one(rec));
        },
        Some(i) => i,
    };
    match table.lookup(id) {
        HandleLookup::Unknown => {
            let (e, rec) = handle_denied(label.as_str(), "use", "?", "forged handle id");
            (Err(e), one(rec))
        },
        HandleLookup::Revoked => {
            let (e, rec) = handle_denied(label.as_str(), "use", "?", "handle revoked");
            (Err(e), one(rec))
        },
        HandleLookup::Live { grant, cap_str, minter } => {
            let crossed = table.note_possessor(id, label.as_str());
            let recs = if crossed {
                let a = three("allow(transfer ", minter.as_str(), "->");
                let verdict = three(a.as_str(), label.as_str(), ")");
                one(record(label.as_str(), "handle", "transfer", cap_str.as_str(), verdict.as_str(), None))
            } else {
                none()
            };
            let ghost before = window.stack@;
            push_active(window, grant);
            assert(grants_view(window.stack@) =~= grants_view(before).push(window.stack@.last()@));
            (Ok(()), recs)
        },
    }
}

/// Closes the innermost possession window.
pub fn oden_capsec_handle_exit(state: &CapsecState, window: &mut ActiveHandles)
    ensures
        final(window).stack@ == (if state.armed && old(window).stack@.len() > 0 {
            old(window).stack@.drop_last()
        } else {
            old(window).stack@
        }),
{
    if !state.armed {
        return;
    }
    pop_active(window);
}

pub open spec fn revoke_records(label: Seq<char>, id: u128, revoked: Seq<(u128, Seq<char>)>) -> Seq<RecordView> {
    revoked.map_values(
        |p: (u128, Seq<char>)|
            record_spec(
                label,
                "handle"@,
                "revoke"@,
                p.1,
                if p.0 == id {
                    "allow(revoke)"@
                } else {
                    "allow(revoke cascade)"@
                },
                None,
            ),
    )
}

/// Revokes a handle and every handle derived from it, with one record per
/// handle revoked.
pub fn oden_capsec_handle_revoke(state: &CapsecState, table: &mut HandleTable, hex: &str) -> (r: Vec<AuditRecord>)
    requires
        old(table).wf(),
    ensures
        final(table).wf(),
        !state.armed || handle_id_of(hex@) is None ==> final(table).entries@ == old(table).entries@ && records_view(r@)
            == Seq::<RecordView>::empty(),
        state.armed && handle_id_of(hex@) is Some ==> forall|h: u128|
            old(table).entry(handle_id_of(hex@)->0) is Some && #[trigger] old(table).entry(h) is Some && crate::handle::reaches(
                old(table).entries@,
                h,
                handle_id_of(hex@)->0,
                old(table).entries@.len() as nat,
            ) ==> final(table).lookup_spec(h) is Revoked,
{
    if !state.armed {
        return none();
    }
    let id = match handle_parse_id(hex) {
        None => return none(),
        Some(i) => i,
    };
    let label = state.principal.label();
    let revoked = table.revoke_cascade(id);
    let ghost rv = report_view(revoked@);
    let mut out: Vec<AuditRecord> = Vec::new();
    let mut i: usize = 0;
    while i < revoked.len()
        invariant
            rv == report_view(revoked@),
            i <= revoked@.len(),
            records_view(out@) == revoke_records(label@, id, rv.take(i as int)),
        decreases revoked@.len() - i,
    {
        let (rid, cap) = (revoked[i].0, &revoked[i].1);
        let kind = if rid == id {
            "allow(revoke)"
        } else {
            "allow(revoke cascade)"
        };
        let ghost before = records_view(out@);
        out.push(record(label.as_str(), "handle", "revoke", cap.as_str(), kind, None));
        assert(records_view(out@) =~= before.push(records_view(out@).last()));
        assert(revoke_records(label@, id, rv.take(i + 1)) =~= revoke_records(label@, id, rv.take(i as int)).push(
            records_view(out@).last(),
        ));
        i = i + 1;
    }
    out
}

} // verus!
